//! The bridge between animals and the genetic algorithm: a chromosome
//! paired with the fitness the animal earned (its food count, scaled into
//! fixed point).

use vstd::prelude::*;
use rand_chacha::ChaCha8Rng;
use crate::animal::Animal;
use crate::brain::brain_topo;
use crate::chromosome::Chromosome;
use crate::chromosome::genes_bounded;
use crate::config::Config;
use crate::fixed::fx_of_count;
use crate::fixed::scale_to_fx;
use crate::individual::Individual;
use crate::network::needed_len;
use crate::network::net_flat;
use crate::network::net_wf;

verus! {

pub struct AnimalIndividual {
    pub fitness: u64,
    pub chromosome: Chromosome,
}

impl Individual for AnimalIndividual {
    open spec fn fitness_spec(&self) -> u64 {
        self.fitness
    }

    open spec fn chromosome_spec(&self) -> Seq<i64> {
        self.chromosome@
    }

    open spec fn has_chromosome(&self) -> bool {
        genes_bounded(self.chromosome@)
    }

    fn fitness(&self) -> (r: u64) {
        self.fitness
    }

    fn chromosome(&self) -> (r: &Chromosome) {
        &self.chromosome
    }

    fn create(chromosome: Chromosome) -> (r: Self) {
        AnimalIndividual { fitness: 0, chromosome }
    }
}

impl AnimalIndividual {
    /// Snapshot an animal for evolution: its collision count, in fixed
    /// point, becomes the fitness; its brain becomes the chromosome.
    pub fn from_animal(animal: &Animal) -> (r: Self)
        requires
            net_wf(animal.brain.nn),
        ensures
            r.fitness as int == scale_to_fx(animal.collisions as int),
            r.chromosome@ == net_flat(animal.brain.nn),
            r.has_chromosome(),
    {
        AnimalIndividual {
            fitness: fx_of_count(animal.collisions),
            chromosome: animal.brain.as_chromosome(),
        }
    }

    /// Materialize an evolved chromosome as a fresh animal.
    pub fn into_animal(self, rng: &mut ChaCha8Rng, config: &Config) -> (r: Animal)
        requires
            config.wf(),
            genes_bounded(self.chromosome@),
            self.chromosome@.len() == needed_len(brain_topo(*config)),
        ensures
            r.wf(*config),
            r.collisions == 0,
            r.speed == config.speed_max,
            net_flat(r.brain.nn) == self.chromosome@,
    {
        Animal::from_chromosome(&self.chromosome, rng, config)
    }
}

} // verus!
