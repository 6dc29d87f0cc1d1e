//! The top-level driver: advance physics each tick, accumulate fitness
//! through collisions, and evolve the population when the tick budget of a
//! generation is spent.
//!
//! Each tick runs three passes. The collision pass relocates every food
//! item an animal touches and credits the animal — a food item hit several
//! times in one tick is relocated once per hit, as the iteration order has
//! it. The brain pass turns each animal's vision into clamped speed and
//! heading deltas, and the movement pass advances every animal along its
//! heading, wrapping around the torus.

use vstd::prelude::*;
use rand_chacha::ChaCha8Rng;
use crate::animal::brain_response;
use crate::animal_individual::AnimalIndividual;
use crate::brain::brain_topo;
use crate::eye::food_positions;
use crate::fixed::clamp_spec;
use crate::fixed::mul_fx;
use crate::fixed::UNIT;
use crate::trig::cos_spec;
use crate::trig::sin_spec;
use crate::trig::wrap_pi_spec;
use crate::config::Config;
use crate::fixed::scale_to_fx;
use crate::ga::GeneticAlgorithm;
use crate::ga::child_of;
use crate::ga::descends_from;
use crate::network::net_flat;
use crate::individual::Individual;
use crate::individual::fitness_seq;
use crate::network::lemma_net_flat_len;
use crate::food::Food;
use crate::pos::Pos;
use crate::pos::dist2;
use crate::pos::dist2_spec;
use crate::rng::seq_sum;
use crate::statistics::Statistics;
use crate::statistics::seq_min;
use crate::statistics::seq_max;
use crate::world::World;

verus! {

/// Squared collision threshold: a fiftieth of the plane's side, squared.
pub const COLLISION_D2: u64 = 400_000_000;

/// The fitness every animal would bring into an evolution right now.
pub open spec fn animal_fitnesses(animals: Seq<crate::animal::Animal>) -> Seq<u64> {
    animals.map(|i: int, a: crate::animal::Animal| scale_to_fx(a.collisions as int) as u64)
}

/// Food items within the collision threshold of the animal, among the
/// first `k`.
pub open spec fn hits_upto(a: crate::animal::Animal, food: Seq<Food>, k: int) -> int
    decreases k,
{
    if k <= 0 {
        0
    } else {
        hits_upto(a, food, k - 1) + if dist2_spec(a.pos, food[k - 1].pos) <= COLLISION_D2 {
            1int
        } else {
            0int
        }
    }
}

/// A counter after the given number of saturating increments.
pub open spec fn credited(c: u64, hits: int) -> int {
    if c + hits > u64::MAX {
        u64::MAX as int
    } else {
        c + hits
    }
}

/// The food item lies within no animal's collision threshold.
pub open spec fn beyond_everyones_reach(
    animals: Seq<crate::animal::Animal>,
    f: Food,
) -> bool {
    forall|i: int|
        0 <= i < animals.len() ==> dist2_spec((#[trigger] animals[i]).pos, f.pos) > COLLISION_D2
}

/// How one ordinary tick changes one animal, given the food field its
/// brain pass reads: the brain's two clamped outputs move the speed and
/// heading, then the animal advances along the new heading and wraps onto
/// the torus. Its brain and eye are untouched and its counter only grows.
pub open spec fn tick_updates(
    a0: crate::animal::Animal,
    a1: crate::animal::Animal,
    food: Seq<Food>,
    config: Config,
) -> bool {
    let resp = brain_response(a0, food_positions(food));
    let speed2 = clamp_spec(
        a0.speed as int + clamp_spec(
            resp[0],
            -(config.speed_accel as int),
            config.speed_accel as int,
        ),
        config.speed_min as int,
        config.speed_max as int,
    );
    let rot2 = wrap_pi_spec(
        a0.rot as int + clamp_spec(resp[1], -(config.rot_accel as int), config.rot_accel as int),
    );
    &&& a1.brain == a0.brain
    &&& a1.eye == a0.eye
    &&& a1.speed as int == speed2
    &&& a1.rot as int == rot2
    &&& a1.pos.x as int == (a0.pos.x as int + mul_fx(speed2, -sin_spec(rot2))) % (UNIT as int)
    &&& a1.pos.y as int == (a0.pos.y as int + mul_fx(speed2, cos_spec(rot2))) % (UNIT as int)
    &&& a1.collisions >= a0.collisions
}

/// The statistics are exactly the minimum, maximum and rounded-down mean of
/// the fitness vector.
pub open spec fn summarizes(stats: Statistics, fits: Seq<u64>) -> bool {
    &&& stats.min_spec() as int == seq_min(fits)
    &&& stats.max_spec() as int == seq_max(fits)
    &&& stats.avg_spec() as int == seq_sum(fits) / (fits.len() as int)
}

/// The statistics summarize some fitness vector of the population's size
/// that dominates the scaled entry counters: the boundary tick's
/// intermediate collision counts.
pub open spec fn boundary_summary(stats: Statistics, entry: Seq<crate::animal::Animal>) -> bool {
    exists|fits: Seq<u64>|
        #![trigger summarizes(stats, fits)]
        fits.len() == entry.len() && summarizes(stats, fits) && (forall|i: int|
            0 <= i < fits.len() ==> #[trigger] fits[i] as int >= scale_to_fx(
                entry[i].collisions as int,
            ))
}

proof fn lemma_scale_monotone(c1: int, c2: int)
    requires
        0 <= c1 <= c2,
    ensures
        scale_to_fx(c1) <= scale_to_fx(c2),
{
    assert(c1 * (UNIT as int) <= c2 * (UNIT as int)) by (nonlinear_arith)
        requires
            0 <= c1 <= c2,
            UNIT as int > 0,
    ;
}

/// Some pair of the outgoing animals' brains explains this animal's brain:
/// its flattened parameters descend, gene by gene and possibly perturbed,
/// from theirs.
pub open spec fn brain_descends(
    a: crate::animal::Animal,
    parents: Seq<crate::animal::Animal>,
    coeff: i64,
) -> bool {
    exists|pa: int, pb: int|
        #![trigger parents[pa], parents[pb]]
        0 <= pa < parents.len() && 0 <= pb < parents.len() && child_of(
            net_flat(a.brain.nn),
            net_flat(parents[pa].brain.nn),
            net_flat(parents[pb].brain.nn),
            coeff,
        )
}

pub struct Simulation {
    pub config: Config,
    pub world: World,
    pub ga: GeneticAlgorithm,
    pub age: usize,
}

impl Simulation {
    /// Everything but the age bound: what holds even in the middle of the
    /// tick that exhausts a generation.
    pub open spec fn wf_core(&self) -> bool {
        &&& self.config.wf()
        &&& self.world.wf(self.config)
        &&& self.ga.selection_method == self.config.selection_method
        &&& self.ga.crossover_method == self.config.crossover_method
        &&& self.ga.mutation_method == self.config.mutation_method
    }

    pub open spec fn wf(&self) -> bool {
        self.wf_core() && self.age <= self.config.gen_len
    }

    pub fn random(rng: &mut ChaCha8Rng, config: Config) -> (r: Simulation)
        requires
            config.wf(),
        ensures
            r.wf(),
            r.config == config,
            r.age == 0,
            forall|i: int|
                0 <= i < r.world.animals@.len() ==> (#[trigger] r.world.animals@[i]).collisions
                    == 0,
    {
        let world = World::random(rng, &config);
        let ga = GeneticAlgorithm::new(
            config.selection_method,
            config.crossover_method,
            config.mutation_method,
        );
        Simulation { config, world, ga, age: 0 }
    }

    pub fn config(&self) -> (r: &Config)
        ensures
            r == &self.config,
    {
        &self.config
    }

    pub fn world(&self) -> (r: &World)
        ensures
            r == &self.world,
    {
        &self.world
    }

    /// The collision pass: every (animal, food) pair within the threshold
    /// credits the animal and relocates the food. Collision counts only
    /// grow, nothing else of an animal changes, food that starts out of
    /// everyone's reach keeps its position, and the first animal — checked
    /// against the entry food field — is credited exactly once per food
    /// item within its threshold (saturating).
    fn process_collisions(&mut self, rng: &mut ChaCha8Rng)
        requires
            old(self).wf(),
        ensures
            final(self).wf(),
            final(self).config == old(self).config,
            final(self).ga == old(self).ga,
            final(self).age == old(self).age,
            final(self).world.animals@.len() == old(self).world.animals@.len(),
            final(self).world.food@.len() == old(self).world.food@.len(),
            forall|i: int|
                0 <= i < final(self).world.animals@.len() ==> {
                    let a = #[trigger] final(self).world.animals@[i];
                    let a0 = old(self).world.animals@[i];
                    a.pos == a0.pos && a.rot == a0.rot && a.speed == a0.speed && a.eye == a0.eye
                        && a.brain == a0.brain && a.collisions >= a0.collisions
                },
            forall|j: int|
                0 <= j < final(self).world.food@.len() && beyond_everyones_reach(
                    old(self).world.animals@,
                    old(self).world.food@[j],
                ) ==> (#[trigger] final(self).world.food@[j]) == old(self).world.food@[j],
            old(self).world.animals@.len() >= 1 ==> final(self).world.animals@[0].collisions as int == credited(
                old(self).world.animals@[0].collisions,
                hits_upto(
                    old(self).world.animals@[0],
                    old(self).world.food@,
                    old(self).world.food@.len() as int,
                ),
            ),
    {
        let n_animals: usize = self.world.animals.len();
        let n_food: usize = self.world.food.len();
        let ghost first = old(self).world.animals@[0];
        let mut ai: usize = 0;
        while ai < n_animals
            invariant
                ai <= n_animals,
                self.wf(),
                self.config == old(self).config,
                self.ga == old(self).ga,
                self.age == old(self).age,
                n_animals == self.world.animals@.len(),
                n_food == self.world.food@.len(),
                old(self).world.animals@.len() == n_animals,
                old(self).world.food@.len() == n_food,
                first == old(self).world.animals@[0],
                forall|i: int|
                    0 <= i < n_animals ==> {
                        let a = #[trigger] self.world.animals@[i];
                        let a0 = old(self).world.animals@[i];
                        a.pos == a0.pos && a.rot == a0.rot && a.speed == a0.speed && a.eye
                            == a0.eye && a.brain == a0.brain && a.collisions >= a0.collisions
                    },
                forall|j: int|
                    0 <= j < n_food && beyond_everyones_reach(
                        old(self).world.animals@,
                        old(self).world.food@[j],
                    ) ==> (#[trigger] self.world.food@[j]) == old(self).world.food@[j],
                ai == 0 ==> (self.world.food@ == old(self).world.food@
                    && self.world.animals@[0].collisions == old(self).world.animals@[0].collisions),
                ai >= 1 ==> self.world.animals@[0].collisions as int == credited(
                    old(self).world.animals@[0].collisions,
                    hits_upto(first, old(self).world.food@, n_food as int),
                ),
            decreases n_animals - ai,
        {
            let mut fi: usize = 0;
            while fi < n_food
                invariant
                    fi <= n_food,
                    ai < n_animals,
                    self.wf(),
                    self.config == old(self).config,
                    self.ga == old(self).ga,
                    self.age == old(self).age,
                    n_animals == self.world.animals@.len(),
                    n_food == self.world.food@.len(),
                    old(self).world.animals@.len() == n_animals,
                    old(self).world.food@.len() == n_food,
                    first == old(self).world.animals@[0],
                    forall|i: int|
                        0 <= i < n_animals ==> {
                            let a = #[trigger] self.world.animals@[i];
                            let a0 = old(self).world.animals@[i];
                            a.pos == a0.pos && a.rot == a0.rot && a.speed == a0.speed && a.eye
                                == a0.eye && a.brain == a0.brain && a.collisions >= a0.collisions
                        },
                    forall|j: int|
                        0 <= j < n_food && beyond_everyones_reach(
                            old(self).world.animals@,
                            old(self).world.food@[j],
                        ) ==> (#[trigger] self.world.food@[j]) == old(self).world.food@[j],
                    ai == 0 ==> (forall|j: int|
                        fi <= j < n_food ==> (#[trigger] self.world.food@[j]) == old(self).world.food@[j]) && self.world.animals@[0].collisions as int == credited(
                        old(self).world.animals@[0].collisions,
                        hits_upto(first, old(self).world.food@, fi as int),
                    ),
                    ai >= 1 ==> self.world.animals@[0].collisions as int == credited(
                        old(self).world.animals@[0].collisions,
                        hits_upto(first, old(self).world.food@, n_food as int),
                    ),
                decreases n_food - fi,
            {
                let apos: Pos = self.world.animals[ai].pos;
                let fpos: Pos = self.world.food[fi].pos;
                let d2: u64 = dist2(apos, fpos);
                if d2 <= COLLISION_D2 {
                    proof {
                        // the entry position of this food item is within
                        // someone's reach, so the preservation clause for it
                        // is vacuous
                        if beyond_everyones_reach(
                            old(self).world.animals@,
                            old(self).world.food@[fi as int],
                        ) {
                            assert(self.world.food@[fi as int] == old(self).world.food@[
                            fi as int]);
                            assert(dist2_spec(
                                old(self).world.animals@[ai as int].pos,
                                old(self).world.food@[fi as int].pos,
                            ) <= COLLISION_D2);
                            assert(false);
                        }
                    }
                    let hit = &mut self.world.animals[ai];
                    let c: u64 = hit.collisions;
                    if c < u64::MAX {
                        hit.collisions = c + 1;
                    }
                    let eaten = &mut self.world.food[fi];
                    eaten.pos = Pos::random(rng);
                }
                proof {
                    if ai == 0 {
                        assert(self.world.animals@[0].pos == first.pos);
                        assert(hits_upto(first, old(self).world.food@, fi as int + 1)
                            == hits_upto(first, old(self).world.food@, fi as int) + (
                        if dist2_spec(first.pos, old(self).world.food@[fi as int].pos)
                            <= COLLISION_D2 {
                            1int
                        } else {
                            0int
                        }));
                    }
                }
                fi = fi + 1;
            }
            ai = ai + 1;
        }
    }

    /// One tick. The collision pass credits touching pairs and relocates
    /// eaten food; the brain and movement passes update every animal over
    /// the post-collision food field; then the age advances. Returns the
    /// outgoing generation's statistics exactly when this tick exhausts the
    /// generation's budget; the whole animal set is then replaced and every
    /// collision counter is zero again.
    pub fn step(&mut self, rng: &mut ChaCha8Rng) -> (r: Option<Statistics>)
        requires
            old(self).wf(),
        ensures
            final(self).wf(),
            final(self).config == old(self).config,
            final(self).ga == old(self).ga,
            old(self).age == old(self).config.gen_len ==> r is Some && final(self).age == 0
                && (forall|i: int|
                0 <= i < final(self).world.animals@.len() ==> (#[trigger] final(self).world.animals@[i]).collisions == 0)
                && boundary_summary(r->Some_0, old(self).world.animals@),
            old(self).age < old(self).config.gen_len ==> r is None && final(self).age == old(self).age + 1
                && (forall|j: int|
                0 <= j < final(self).world.food@.len() && beyond_everyones_reach(
                    old(self).world.animals@,
                    old(self).world.food@[j],
                ) ==> (#[trigger] final(self).world.food@[j]) == old(self).world.food@[j])
                && (forall|i: int|
                0 <= i < final(self).world.animals@.len() ==> tick_updates(
                    old(self).world.animals@[i],
                    #[trigger] final(self).world.animals@[i],
                    final(self).world.food@,
                    old(self).config,
                )),
    {
        self.process_collisions(rng);
        let ghost mid = *self;
        let n_animals: usize = self.world.animals.len();
        let mut i: usize = 0;
        while i < n_animals
            invariant
                i <= n_animals,
                self.wf(),
                self.config == mid.config,
                self.config == old(self).config,
                self.ga == mid.ga,
                self.age == mid.age,
                mid.wf(),
                n_animals == self.world.animals@.len(),
                mid.world.animals@.len() == n_animals,
                old(self).world.animals@.len() == n_animals,
                self.world.food == mid.world.food,
                forall|j: int|
                    0 <= j < n_animals ==> {
                        let m = #[trigger] mid.world.animals@[j];
                        let a0 = old(self).world.animals@[j];
                        m.pos == a0.pos && m.rot == a0.rot && m.speed == a0.speed && m.eye
                            == a0.eye && m.brain == a0.brain && m.collisions >= a0.collisions
                    },
                forall|j: int|
                    i <= j < n_animals ==> #[trigger] self.world.animals@[j]
                        == mid.world.animals@[j],
                forall|j: int|
                    0 <= j < i ==> tick_updates(
                        old(self).world.animals@[j],
                        #[trigger] self.world.animals@[j],
                        self.world.food@,
                        self.config,
                    ),
            decreases n_animals - i,
        {
            let agent = &mut self.world.animals[i];
            agent.process_brain(&self.world.food, &self.config);
            let agent2 = &mut self.world.animals[i];
            agent2.process_movement();
            proof {
                // the collision pass kept every field the brain pass reads,
                // so the response over the entry animal is the same
                assert(brain_response(mid.world.animals@[i as int], food_positions(
                    self.world.food@,
                )) == brain_response(old(self).world.animals@[i as int], food_positions(
                    self.world.food@,
                )));
                assert(tick_updates(
                    old(self).world.animals@[i as int],
                    self.world.animals@[i as int],
                    self.world.food@,
                    self.config,
                ));
            }
            i = i + 1;
        }
        self.age = self.age + 1;
        if self.age > self.config.gen_len {
            let ghost entry = *self;
            let stats = self.evolve(rng);
            proof {
                let fits = animal_fitnesses(entry.world.animals@);
                assert(fits.len() == old(self).world.animals@.len());
                assert(summarizes(stats, fits));
                assert forall|k: int| 0 <= k < fits.len() implies #[trigger] fits[k] as int
                    >= scale_to_fx(old(self).world.animals@[k].collisions as int) by {
                    lemma_scale_monotone(
                        old(self).world.animals@[k].collisions as int,
                        entry.world.animals@[k].collisions as int,
                    );
                }
                assert(boundary_summary(stats, old(self).world.animals@));
            }
            Some(stats)
        } else {
            None
        }
    }

    /// Step until a generation boundary hands back its statistics: the
    /// summary of the generation that just finished.
    pub fn train(&mut self, rng: &mut ChaCha8Rng) -> (r: Statistics)
        requires
            old(self).wf(),
        ensures
            final(self).wf(),
            final(self).config == old(self).config,
            final(self).ga == old(self).ga,
            final(self).age == 0,
            forall|i: int|
                0 <= i < final(self).world.animals@.len() ==> (#[trigger] final(self).world.animals@[i]).collisions == 0,
            boundary_summary(r, old(self).world.animals@),
            r.min_spec() <= r.avg_spec() <= r.max_spec(),
    {
        loop
            invariant
                self.wf(),
                self.config == old(self).config,
                self.ga == old(self).ga,
                self.world.animals@.len() == old(self).world.animals@.len(),
                forall|i: int|
                    0 <= i < self.world.animals@.len() ==> (#[trigger] self.world.animals@[
                        i]).collisions >= old(self).world.animals@[i].collisions,
            decreases self.config.gen_len - self.age,
        {
            let ghost entry = *self;
            let stepped = self.step(rng);
            match stepped {
                Some(stats) => {
                    proof {
                        // the boundary summary over this step's entry
                        // dominates the scaled counters at train's entry too
                        let fits = choose|fits: Seq<u64>|
                            #![trigger summarizes(stats, fits)]
                            fits.len() == entry.world.animals@.len() && summarizes(stats, fits)
                                && (forall|i: int|
                                0 <= i < fits.len() ==> #[trigger] fits[i] as int >= scale_to_fx(
                                    entry.world.animals@[i].collisions as int,
                                ));
                        assert forall|i: int| 0 <= i < fits.len() implies #[trigger] fits[
                            i] as int >= scale_to_fx(
                            old(self).world.animals@[i].collisions as int,
                        ) by {
                            lemma_scale_monotone(
                                old(self).world.animals@[i].collisions as int,
                                entry.world.animals@[i].collisions as int,
                            );
                        }
                        assert(boundary_summary(stats, old(self).world.animals@));
                        crate::statistics::lemma_mean_between_extremes(fits);
                    }
                    return stats;
                },
                None => {
                    proof {
                        assert forall|i: int| 0 <= i < self.world.animals@.len() implies (
                        #[trigger] self.world.animals@[i]).collisions >= old(
                            self,
                        ).world.animals@[i].collisions by {
                            assert(tick_updates(
                                entry.world.animals@[i],
                                self.world.animals@[i],
                                self.world.food@,
                                entry.config,
                            ));
                        }
                    }
                },
            }
        }
    }

    /// The generation transition: snapshot every animal as an individual,
    /// evolve, rebuild the animal set from the children, relocate all
    /// food, and reset the age. The statistics describe the outgoing
    /// population.
    fn evolve(&mut self, rng: &mut ChaCha8Rng) -> (r: Statistics)
        requires
            old(self).wf_core(),
        ensures
            final(self).wf(),
            final(self).config == old(self).config,
            final(self).ga == old(self).ga,
            final(self).age == 0,
            forall|i: int|
                0 <= i < final(self).world.animals@.len() ==> (#[trigger] final(self).world.animals@[i]).collisions == 0,
            forall|i: int|
                0 <= i < final(self).world.animals@.len() ==> (#[trigger] final(self).world.animals@[i]).speed == old(self).config.speed_max,
            forall|i: int|
                0 <= i < final(self).world.animals@.len() ==> brain_descends(
                    #[trigger] final(self).world.animals@[i],
                    old(self).world.animals@,
                    old(self).config.mutation_method.coeff_spec(),
                ),
            r.min_spec() as int == seq_min(animal_fitnesses(old(self).world.animals@)),
            r.max_spec() as int == seq_max(animal_fitnesses(old(self).world.animals@)),
            r.avg_spec() as int == seq_sum(animal_fitnesses(old(self).world.animals@)) / (old(self).world.animals@.len() as int),
    {
        self.age = 0;
        let n: usize = self.world.animals.len();
        let mut individuals: Vec<AnimalIndividual> = Vec::new();
        let mut i: usize = 0;
        while i < n
            invariant
                i <= n,
                self.wf(),
                self.age == 0,
                self.ga == old(self).ga,
                self.config == old(self).config,
                self.world == old(self).world,
                n == self.world.animals@.len(),
                individuals@.len() == i,
                forall|j: int|
                    0 <= j < i ==> (#[trigger] individuals@[j]).fitness_spec() as int
                        == scale_to_fx(self.world.animals@[j].collisions as int),
                forall|j: int| 0 <= j < i ==> (#[trigger] individuals@[j]).has_chromosome(),
                forall|j: int|
                    0 <= j < i ==> (#[trigger] individuals@[j]).chromosome_spec().len()
                        == crate::network::needed_len(brain_topo(self.config)),
                forall|j: int|
                    0 <= j < i ==> (#[trigger] individuals@[j]).chromosome_spec() == net_flat(
                        self.world.animals@[j].brain.nn),
            decreases n - i,
        {
            let snap = AnimalIndividual::from_animal(&self.world.animals[i]);
            proof {
                lemma_net_flat_len(
                    self.world.animals@[i as int].brain.nn,
                    brain_topo(self.config),
                );
            }
            individuals.push(snap);
            i = i + 1;
        }
        proof {
            assert(fitness_seq(individuals@) =~= animal_fitnesses(old(self).world.animals@));
        }
        let evolved = self.ga.evolve(rng, &individuals);
        let mut children: Vec<AnimalIndividual> = evolved.0;
        let stats: Statistics = evolved.1;
        let ghost coeff = self.config.mutation_method.coeff_spec();
        let ghost outgoing = old(self).world.animals@;
        let mut animals: Vec<crate::animal::Animal> = Vec::new();
        while children.len() > 0
            invariant
                self.wf(),
                self.age == 0,
                self.config == old(self).config,
                self.ga == old(self).ga,
                coeff == self.config.mutation_method.coeff_spec(),
                outgoing == old(self).world.animals@,
                outgoing.len() == n,
                n == self.world.animals@.len(),
                individuals@.len() == n,
                forall|j: int|
                    0 <= j < n ==> (#[trigger] individuals@[j]).chromosome_spec() == net_flat(
                        outgoing[j].brain.nn),
                animals@.len() + children@.len() == n,
                forall|j: int|
                    0 <= j < children@.len() ==> (#[trigger] children@[j]).has_chromosome(),
                forall|j: int|
                    0 <= j < children@.len() ==> (#[trigger] children@[j]).chromosome_spec().len()
                        == crate::network::needed_len(brain_topo(self.config)),
                forall|j: int|
                    0 <= j < children@.len() ==> descends_from(
                        (#[trigger] children@[j]).chromosome_spec(),
                        individuals@,
                        coeff,
                    ),
                forall|j: int| 0 <= j < animals@.len() ==> (#[trigger] animals@[j]).wf(self.config),
                forall|j: int|
                    0 <= j < animals@.len() ==> (#[trigger] animals@[j]).collisions == 0,
                forall|j: int|
                    0 <= j < animals@.len() ==> (#[trigger] animals@[j]).speed
                        == self.config.speed_max,
                forall|j: int|
                    0 <= j < animals@.len() ==> brain_descends(
                        #[trigger] animals@[j],
                        outgoing,
                        coeff,
                    ),
            decreases children@.len(),
        {
            let ghost pre = children@;
            let child = children.remove(0);
            proof {
                assert(child == pre[0]);
                assert forall|j: int| 0 <= j < children@.len() implies #[trigger] children@[j]
                    == pre[j + 1] by {
                    assert(children@ == pre.subrange(0, 0) + pre.subrange(1, pre.len() as int));
                    assert(children@[j] == pre.subrange(1, pre.len() as int)[j]);
                }
            }
            let fresh = child.into_animal(rng, &self.config);
            proof {
                // the new brain carries exactly the evolved chromosome, so
                // its provenance is the chromosome's
                let (pa, pb) = choose|pa: int, pb: int|
                    #![trigger individuals@[pa], individuals@[pb]]
                    0 <= pa < individuals@.len() && 0 <= pb < individuals@.len() && child_of(
                        pre[0].chromosome_spec(),
                        individuals@[pa].chromosome_spec(),
                        individuals@[pb].chromosome_spec(),
                        coeff,
                    );
                assert(0 <= pa < outgoing.len() && 0 <= pb < outgoing.len());
                assert(net_flat(fresh.brain.nn) == pre[0].chromosome_spec());
                assert(child_of(
                    net_flat(fresh.brain.nn),
                    net_flat(outgoing[pa].brain.nn),
                    net_flat(outgoing[pb].brain.nn),
                    coeff,
                ));
                assert(brain_descends(fresh, outgoing, coeff));
            }
            animals.push(fresh);
        }
        self.world.animals = animals;
        let n_food: usize = self.world.food.len();
        let mut k: usize = 0;
        while k < n_food
            invariant
                k <= n_food,
                self.wf(),
                self.age == 0,
                self.config == old(self).config,
                self.ga == old(self).ga,
                n_food == self.world.food@.len(),
                coeff == self.config.mutation_method.coeff_spec(),
                outgoing == old(self).world.animals@,
                forall|j: int|
                    0 <= j < self.world.animals@.len() ==> (#[trigger] self.world.animals@[
                        j]).collisions == 0,
                forall|j: int|
                    0 <= j < self.world.animals@.len() ==> (#[trigger] self.world.animals@[
                        j]).speed == self.config.speed_max,
                forall|j: int|
                    0 <= j < self.world.animals@.len() ==> brain_descends(
                        #[trigger] self.world.animals@[j],
                        outgoing,
                        coeff,
                    ),
            decreases n_food - k,
        {
            self.world.food[k] = crate::food::Food::random(rng);
            k = k + 1;
        }
        stats
    }
}

} // verus!
