//! The genetic algorithm: one generational transition.
//!
//! For each output slot, two parents are selected independently (with
//! replacement), their chromosomes crossed gene by gene, the child mutated
//! in place, and a fresh individual materialized from it. The summary
//! statistics describe the outgoing population, not the new one.

use vstd::prelude::*;
use rand_chacha::ChaCha8Rng;
use crate::crossover::Crossover;
use crate::individual::Individual;
use crate::individual::fitness_seq;
use crate::mutation::Mutation;
use crate::mutation::gene_perturbed;
use crate::rng::seq_sum;
use crate::selection::Selection;
use crate::statistics::Statistics;
use crate::statistics::seq_min;
use crate::statistics::seq_max;

verus! {

/// One child gene's provenance: a parent's gene at that position, possibly
/// perturbed by the mutation.
pub open spec fn gene_from(parent_gene: i64, child_gene: i64, coeff: i64) -> bool {
    child_gene == parent_gene || gene_perturbed(parent_gene, child_gene, coeff)
}

/// A child chromosome built gene by gene from two parents: every position
/// holds one of the parents' genes there, possibly perturbed.
pub open spec fn child_of(child: Seq<i64>, a: Seq<i64>, b: Seq<i64>, coeff: i64) -> bool {
    &&& child.len() == a.len()
    &&& child.len() == b.len()
    &&& forall|g: int|
        0 <= g < child.len() ==> gene_from(a[g], #[trigger] child[g], coeff) || gene_from(
            b[g],
            child[g],
            coeff,
        )
}

/// Some pair of the population's chromosomes explains the child.
pub open spec fn descends_from<I: Individual>(child: Seq<i64>, pop: Seq<I>, coeff: i64) -> bool {
    exists|pa: int, pb: int|
        0 <= pa < pop.len() && 0 <= pb < pop.len() && child_of(
            child,
            (#[trigger] pop[pa]).chromosome_spec(),
            (#[trigger] pop[pb]).chromosome_spec(),
            coeff,
        )
}

pub struct GeneticAlgorithm {
    pub selection_method: Selection,
    pub crossover_method: Crossover,
    pub mutation_method: Mutation,
}

impl GeneticAlgorithm {
    pub fn new(
        selection_method: Selection,
        crossover_method: Crossover,
        mutation_method: Mutation,
    ) -> (r: Self)
        ensures
            r.selection_method == selection_method,
            r.crossover_method == crossover_method,
            r.mutation_method == mutation_method,
    {
        GeneticAlgorithm { selection_method, crossover_method, mutation_method }
    }

    /// Produce a full replacement population of the same size, together
    /// with min/max/mean statistics of the population that is replaced.
    pub fn evolve<I: Individual>(&self, rng: &mut ChaCha8Rng, population: &Vec<I>) -> (r: (
        Vec<I>,
        Statistics,
    ))
        requires
            1 <= population@.len() < u64::MAX,
            self.mutation_method.valid(),
            forall|i: int| 0 <= i < population@.len() ==> #[trigger] population@[i].has_chromosome(),
            forall|i: int|
                0 <= i < population@.len() ==> #[trigger] population@[i].chromosome_spec().len()
                    == population@[0].chromosome_spec().len(),
        ensures
            r.0@.len() == population@.len(),
            forall|i: int| 0 <= i < r.0@.len() ==> #[trigger] r.0@[i].has_chromosome(),
            forall|i: int|
                0 <= i < r.0@.len() ==> #[trigger] r.0@[i].chromosome_spec().len()
                    == population@[0].chromosome_spec().len(),
            forall|i: int|
                0 <= i < r.0@.len() ==> descends_from(
                    (#[trigger] r.0@[i]).chromosome_spec(),
                    population@,
                    self.mutation_method.coeff_spec(),
                ),
            r.1.min_spec() as int == seq_min(fitness_seq(population@)),
            r.1.max_spec() as int == seq_max(fitness_seq(population@)),
            r.1.avg_spec() as int == seq_sum(fitness_seq(population@)) / (population@.len() as int),
    {
        let n: usize = population.len();
        let mut next: Vec<I> = Vec::new();
        let mut slot: usize = 0;
        while slot < n
            invariant
                slot <= n,
                n == population@.len(),
                1 <= n < u64::MAX,
                self.mutation_method.valid(),
                forall|i: int| 0 <= i < n ==> #[trigger] population@[i].has_chromosome(),
                forall|i: int|
                    0 <= i < n ==> #[trigger] population@[i].chromosome_spec().len()
                        == population@[0].chromosome_spec().len(),
                next@.len() == slot,
                forall|i: int| 0 <= i < slot ==> #[trigger] next@[i].has_chromosome(),
                forall|i: int|
                    0 <= i < slot ==> #[trigger] next@[i].chromosome_spec().len() == population@[
                        0].chromosome_spec().len(),
                forall|i: int|
                    0 <= i < slot ==> descends_from(
                        (#[trigger] next@[i]).chromosome_spec(),
                        population@,
                        self.mutation_method.coeff_spec(),
                    ),
            decreases n - slot,
        {
            let parent_a: usize = self.selection_method.select(rng, population);
            let parent_b: usize = self.selection_method.select(rng, population);
            let genes_a = population[parent_a].chromosome();
            let genes_b = population[parent_b].chromosome();
            let mut child = self.crossover_method.crossover(rng, genes_a, genes_b);
            let ghost mix = child@;
            self.mutation_method.mutate(rng, &mut child);
            proof {
                let pa = parent_a as int;
                let pb = parent_b as int;
                let coeff = self.mutation_method.coeff_spec();
                assert(child_of(child@, population@[pa].chromosome_spec(),
                    population@[pb].chromosome_spec(), coeff)) by {
                    assert forall|g: int| 0 <= g < child@.len() implies gene_from(
                        population@[pa].chromosome_spec()[g],
                        #[trigger] child@[g],
                        coeff,
                    ) || gene_from(population@[pb].chromosome_spec()[g], child@[g], coeff) by {
                        assert(mix[g] == population@[pa].chromosome_spec()[g] || mix[g]
                            == population@[pb].chromosome_spec()[g]);
                        assert(child@[g] == mix[g] || gene_perturbed(mix[g], child@[g], coeff));
                    }
                }
                assert(descends_from(child@, population@, coeff));
            }
            next.push(I::create(child));
            slot = slot + 1;
        }
        let statistics = Statistics::new(population);
        (next, statistics)
    }
}

} // verus!
