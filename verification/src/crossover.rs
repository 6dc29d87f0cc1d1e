//! Crossover strategies: combine two equal-length parent chromosomes
//! gene by gene into one child.

use vstd::prelude::*;
use rand_chacha::ChaCha8Rng;
use crate::chromosome::Chromosome;
use crate::rng::rng_below;

verus! {

#[derive(Clone, Copy, Debug, Default)]
pub struct UniformCrossover;

impl UniformCrossover {
    /// For each gene position, a fair coin decides which parent's gene the
    /// child takes.
    pub fn crossover(
        &self,
        rng: &mut ChaCha8Rng,
        parent_a: &Chromosome,
        parent_b: &Chromosome,
    ) -> (r: Chromosome)
        requires
            parent_a@.len() == parent_b@.len(),
            parent_a.wf(),
            parent_b.wf(),
        ensures
            r@.len() == parent_a@.len(),
            forall|i: int|
                0 <= i < r@.len() ==> #[trigger] r@[i] == parent_a@[i] || r@[i] == parent_b@[i],
            r.wf(),
    {
        let n: usize = parent_a.len();
        let mut genes: Vec<i64> = Vec::new();
        let mut i: usize = 0;
        while i < n
            invariant
                i <= n,
                n == parent_a@.len(),
                n == parent_b@.len(),
                parent_a.wf(),
                parent_b.wf(),
                genes@.len() == i,
                forall|j: int|
                    0 <= j < i ==> #[trigger] genes@[j] == parent_a@[j] || genes@[j]
                        == parent_b@[j],
            decreases n - i,
        {
            let coin: u64 = rng_below(rng, 2);
            if coin == 1 {
                genes.push(parent_a.gene(i));
            } else {
                genes.push(parent_b.gene(i));
            }
            i = i + 1;
        }
        Chromosome::from_genes(genes)
    }
}

/// The closed set of crossover strategies, dispatching to the one chosen.
#[derive(Clone, Copy, Debug, PartialEq, Eq, Structural)]
pub enum Crossover {
    Uniform,
}

impl Crossover {
    pub fn crossover(
        &self,
        rng: &mut ChaCha8Rng,
        parent_a: &Chromosome,
        parent_b: &Chromosome,
    ) -> (r: Chromosome)
        requires
            parent_a@.len() == parent_b@.len(),
            parent_a.wf(),
            parent_b.wf(),
        ensures
            r@.len() == parent_a@.len(),
            forall|i: int|
                0 <= i < r@.len() ==> #[trigger] r@[i] == parent_a@[i] || r@[i] == parent_b@[i],
            r.wf(),
    {
        match self {
            Crossover::Uniform => UniformCrossover.crossover(rng, parent_a, parent_b),
        }
    }
}

} // verus!
