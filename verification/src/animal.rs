//! An agent: position and heading on the torus, a speed, an eye, a brain,
//! and the count of food collected this generation.

use vstd::prelude::*;
use rand_chacha::ChaCha8Rng;
use crate::brain::Brain;
use crate::brain::brain_topo;
use crate::chromosome::Chromosome;
use crate::config::Config;
use crate::eye::Eye;
use crate::eye::food_positions;
use crate::eye::vision_spec;
use crate::fixed::clamp_spec;
use crate::fixed::fx_clamp;
use crate::fixed::fx_mul;
use crate::fixed::mul_fx;
use crate::fixed::wrap_unit;
use crate::fixed::UNIT;
use crate::food::Food;
use crate::network::needed_len;
use crate::network::net_flat;
use crate::network::net_out;
use crate::pos::Pos;
use crate::pos::pos_wf;
use crate::rng::rng_below;
use crate::trig::cos_spec;
use crate::trig::cos_fp;
use crate::trig::sin_spec;
use crate::trig::sin_fp;
use crate::trig::wrap_pi;
use crate::trig::wrap_pi_spec;
use crate::trig::PI_FP;
use crate::trig::TAU_FP;

verus! {

pub struct Animal {
    pub pos: Pos,
    pub rot: i64,
    pub speed: i64,
    pub eye: Eye,
    pub brain: Brain,
    pub collisions: u64,
}

/// The network's reaction to what the animal sees.
pub open spec fn brain_response(a: Animal, food: Seq<Pos>) -> Seq<int> {
    net_out(a.brain.nn.layers@, vision_spec(a.eye, a.pos, a.rot as int, food))
}

impl Animal {
    pub open spec fn wf(&self, config: Config) -> bool {
        &&& pos_wf(self.pos)
        &&& -PI_FP < self.rot <= PI_FP
        &&& config.speed_min <= self.speed <= config.speed_max
        &&& self.eye.wf()
        &&& self.eye.fov_range == config.eye_range
        &&& self.eye.fov_angle == config.eye_fov
        &&& self.eye.cells == config.eye_cells
        &&& self.brain.wf(config)
    }

    fn new(config: &Config, brain: Brain, rng: &mut ChaCha8Rng) -> (r: Animal)
        requires
            config.wf(),
            brain.wf(*config),
        ensures
            r.wf(*config),
            r.collisions == 0,
            r.brain == brain,
            r.speed == config.speed_max,
    {
        let raw_rot: i64 = rng_below(rng, TAU_FP as u64) as i64;
        Animal {
            pos: Pos::random(rng),
            rot: wrap_pi(raw_rot as i128),
            speed: config.speed_max,
            eye: Eye::new(config),
            brain,
            collisions: 0,
        }
    }

    pub fn random(rng: &mut ChaCha8Rng, config: &Config) -> (r: Animal)
        requires
            config.wf(),
        ensures
            r.wf(*config),
            r.collisions == 0,
            r.speed == config.speed_max,
    {
        let brain = Brain::random(config, rng);
        Self::new(config, brain, rng)
    }

    pub fn position(&self) -> (r: Pos)
        ensures
            r == self.pos,
    {
        self.pos
    }

    pub fn rot(&self) -> (r: i64)
        ensures
            r == self.rot,
    {
        self.rot
    }

    pub fn speed(&self) -> (r: i64)
        ensures
            r == self.speed,
    {
        self.speed
    }

    pub fn collisions(&self) -> (r: u64)
        ensures
            r == self.collisions,
    {
        self.collisions
    }

    /// The brain's parameters as a chromosome.
    pub fn as_chromosome(&self, config: &Config) -> (r: Chromosome)
        requires
            self.wf(*config),
        ensures
            r@ == net_flat(self.brain.nn),
            r.wf(),
    {
        self.brain.as_chromosome()
    }

    /// An animal rebuilt from an evolved chromosome: fresh random position
    /// and heading, zeroed collision count.
    pub fn from_chromosome(chromosome: &Chromosome, rng: &mut ChaCha8Rng, config: &Config) -> (r:
        Animal)
        requires
            config.wf(),
            chromosome.wf(),
            chromosome@.len() == needed_len(brain_topo(*config)),
        ensures
            r.wf(*config),
            r.collisions == 0,
            r.speed == config.speed_max,
            net_flat(r.brain.nn) == chromosome@,
    {
        let brain = Brain::from_chromosome(chromosome, config);
        Self::new(config, brain, rng)
    }

    /// One brain pass: sense the food field, propagate, and apply the two
    /// outputs as clamped speed and heading deltas.
    pub fn process_brain(&mut self, food: &Vec<Food>, config: &Config)
        requires
            old(self).wf(*config),
            config.wf(),
            forall|i: int| 0 <= i < food@.len() ==> pos_wf((#[trigger] food@[i]).pos),
            food@.len() <= 1_000_000,
        ensures
            final(self).wf(*config),
            final(self).pos == old(self).pos,
            final(self).eye == old(self).eye,
            final(self).brain == old(self).brain,
            final(self).collisions == old(self).collisions,
            ({
                let resp = brain_response(*old(self), food_positions(food@));
                &&& final(self).speed as int == clamp_spec(
                    old(self).speed as int + clamp_spec(
                        resp[0],
                        -(config.speed_accel as int),
                        config.speed_accel as int,
                    ),
                    config.speed_min as int,
                    config.speed_max as int,
                )
                &&& final(self).rot as int == wrap_pi_spec(
                    old(self).rot as int + clamp_spec(
                        resp[1],
                        -(config.rot_accel as int),
                        config.rot_accel as int,
                    ),
                )
            }),
    {
        let vision: Vec<i64> = self.eye.process_vision(self.pos, self.rot, food);
        let response: Vec<i64> = self.brain.nn.propagate(&vision);
        let ds: i64 = fx_clamp(response[0], -config.speed_accel, config.speed_accel);
        let dr: i64 = fx_clamp(response[1], -config.rot_accel, config.rot_accel);
        self.speed = fx_clamp(self.speed + ds, config.speed_min, config.speed_max);
        self.rot = wrap_pi(self.rot as i128 + dr as i128);
    }

    /// One movement pass: advance along the heading by the speed, wrapping
    /// both coordinates back onto the torus.
    pub fn process_movement(&mut self)
        requires
            pos_wf(old(self).pos),
        ensures
            pos_wf(final(self).pos),
            final(self).pos.x as int == (old(self).pos.x as int + mul_fx(
                old(self).speed as int,
                -sin_spec(old(self).rot as int),
            )) % (UNIT as int),
            final(self).pos.y as int == (old(self).pos.y as int + mul_fx(
                old(self).speed as int,
                cos_spec(old(self).rot as int),
            )) % (UNIT as int),
            final(self).rot == old(self).rot,
            final(self).speed == old(self).speed,
            final(self).eye == old(self).eye,
            final(self).brain == old(self).brain,
            final(self).collisions == old(self).collisions,
    {
        let s: i64 = sin_fp(self.rot);
        let c: i64 = cos_fp(self.rot);
        let dx: i64 = fx_mul(self.speed, -s);
        let dy: i64 = fx_mul(self.speed, c);
        self.pos = Pos {
            x: wrap_unit(self.pos.x as i128 + dx as i128),
            y: wrap_unit(self.pos.y as i128 + dy as i128),
        };
    }
}

} // verus!
