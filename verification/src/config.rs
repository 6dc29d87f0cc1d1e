//! The immutable-per-run bundle of tunable constants.

use vstd::prelude::*;
use crate::crossover::Crossover;
use crate::fixed::UNIT;
use crate::fixed::VAL_MAX;
use crate::mutation::Mutation;
use crate::selection::Selection;
use crate::trig::HALF_PI_FP;
use crate::trig::PI_FP;
use crate::trig::TAU_FP;

verus! {

#[derive(Clone, Copy, Debug)]
pub struct Config {
    /// Field-of-view angle of the eye, in fixed-point radians.
    pub eye_fov: i64,
    /// Sight range of the eye, as a fraction of the plane.
    pub eye_range: i64,
    /// Number of angular sensor cells.
    pub eye_cells: usize,
    /// Width of the hidden network layer.
    pub brain_neurons: usize,
    pub speed_min: i64,
    pub speed_max: i64,
    pub speed_accel: i64,
    pub rot_accel: i64,
    /// Ticks per generation.
    pub gen_len: usize,
    pub count_animal: usize,
    pub count_food: usize,
    pub selection_method: Selection,
    pub mutation_method: Mutation,
    pub crossover_method: Crossover,
}

impl Config {
    /// Every constant lies in its meaningful range.
    pub open spec fn wf(&self) -> bool {
        &&& 1 <= self.eye_range <= UNIT
        &&& 1 <= self.eye_fov <= TAU_FP
        &&& self.eye_cells >= 1
        &&& self.brain_neurons >= 1
        &&& 0 <= self.speed_min <= self.speed_max <= UNIT
        &&& 0 <= self.speed_accel <= VAL_MAX
        &&& 0 <= self.rot_accel <= TAU_FP
        &&& 1 <= self.gen_len < usize::MAX
        &&& 1 <= self.count_animal < u64::MAX
        &&& self.count_food <= 1_000_000
        &&& self.mutation_method.valid()
    }

    /// Runtime mirror of `wf`, so unverified callers can check a
    /// configuration before handing it over.
    pub fn is_valid(&self) -> (r: bool)
        ensures
            r == self.wf(),
    {
        1 <= self.eye_range && self.eye_range <= UNIT && 1 <= self.eye_fov && self.eye_fov
            <= TAU_FP && self.eye_cells >= 1 && self.brain_neurons >= 1 && 0 <= self.speed_min
            && self.speed_min <= self.speed_max && self.speed_max <= UNIT && 0 <= self.speed_accel
            && self.speed_accel <= VAL_MAX && 0 <= self.rot_accel && self.rot_accel <= TAU_FP && 1
            <= self.gen_len && self.gen_len < usize::MAX && 1 <= self.count_animal && (
        self.count_animal as u64) < u64::MAX && self.count_food <= 1_000_000 && (
        match self.mutation_method {
            Mutation::Gaussian(chance, coeff) => chance <= UNIT as u64 && -VAL_MAX <= coeff
                && coeff <= VAL_MAX,
        })
    }
}

impl Default for Config {
    /// The stock configuration: a 270-degree eye with nine cells and a
    /// quarter-of-the-plane range, a nine-neuron hidden layer, roulette
    /// selection, uniform crossover and a 1% gaussian mutation, over 3000
    /// ticks, 30 animals and 100 food items.
    fn default() -> (r: Self)
        ensures
            r.wf(),
            r.eye_fov == PI_FP + HALF_PI_FP,
            r.eye_range == 250_000,
            r.eye_cells == 9,
            r.brain_neurons == 9,
            r.speed_min == 2_000,
            r.speed_max == 600_000,
            r.speed_accel == 200_000,
            r.rot_accel == HALF_PI_FP,
            r.gen_len == 3000,
            r.count_animal == 30,
            r.count_food == 100,
            r.selection_method == Selection::Roulette,
            r.mutation_method == Mutation::Gaussian(10_000, 300_000),
            r.crossover_method == Crossover::Uniform,
    {
        Config {
            eye_fov: PI_FP + HALF_PI_FP,
            eye_range: 250_000,
            eye_cells: 9,
            brain_neurons: 9,
            speed_min: 2_000,
            speed_max: 600_000,
            speed_accel: 200_000,
            rot_accel: HALF_PI_FP,
            gen_len: 3000,
            count_animal: 30,
            count_food: 100,
            selection_method: Selection::Roulette,
            mutation_method: Mutation::Gaussian(10_000, 300_000),
            crossover_method: Crossover::Uniform,
        }
    }
}

} // verus!
