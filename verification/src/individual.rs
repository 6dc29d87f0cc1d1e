//! The capability abstraction the genetic algorithm evolves over: anything
//! with a fitness, a chromosome, and a way to be rebuilt from one.

use vstd::prelude::*;
use crate::chromosome::Chromosome;
use crate::chromosome::genes_bounded;

verus! {

pub trait Individual: Sized {
    /// The fitness score, in ghost form.
    spec fn fitness_spec(&self) -> u64;

    /// The carried gene sequence, in ghost form.
    spec fn chromosome_spec(&self) -> Seq<i64>;

    /// Whether this individual carries a chromosome that can be read.
    spec fn has_chromosome(&self) -> bool;

    fn fitness(&self) -> (r: u64)
        ensures
            r == self.fitness_spec(),
    ;

    fn chromosome(&self) -> (r: &Chromosome)
        requires
            self.has_chromosome(),
        ensures
            r@ == self.chromosome_spec(),
            genes_bounded(r@),
    ;

    fn create(chromosome: Chromosome) -> (r: Self)
        requires
            chromosome.wf(),
        ensures
            r.has_chromosome(),
            r.chromosome_spec() == chromosome@,
    ;
}

/// The fitness sequence of a population.
pub open spec fn fitness_seq<I: Individual>(pop: Seq<I>) -> Seq<u64> {
    pop.map(|i: int, x: I| x.fitness_spec())
}

/// Signed sum of a gene sequence.
pub open spec fn gene_sum(s: Seq<i64>) -> int
    decreases s.len(),
{
    if s.len() == 0 {
        0
    } else {
        s[0] + gene_sum(s.skip(1))
    }
}

/// A signed sum clamped into the `u64` range, the fitness a gene-carrying
/// test individual reports.
pub open spec fn clamped_sum(s: Seq<i64>) -> int {
    let t = gene_sum(s);
    if t < 0 {
        0
    } else if t > u64::MAX as int {
        u64::MAX as int
    } else {
        t
    }
}

proof fn lemma_gene_sum_push(s: Seq<i64>, x: i64)
    ensures
        gene_sum(s.push(x)) == gene_sum(s) + x,
    decreases s.len(),
{
    if s.len() == 0 {
        assert(s.push(x).skip(1) =~= Seq::<i64>::empty());
        assert(gene_sum(Seq::<i64>::empty()) == 0);
        assert(s.push(x)[0] == x);
    } else {
        assert(s.push(x).skip(1) =~= s.skip(1).push(x));
        lemma_gene_sum_push(s.skip(1), x);
        assert(s.push(x)[0] == s[0]);
    }
}

/// A stand-in individual for exercising the genetic operators: either a
/// bare fitness value, or a chromosome whose clamped gene sum serves as its
/// fitness.
pub enum TestIndividual {
    WithChromosome { chromosome: Chromosome },
    WithFitness { fitness: u64 },
}

impl TestIndividual {
    pub open spec fn wf(&self) -> bool {
        match self {
            TestIndividual::WithChromosome { chromosome } => chromosome.wf(),
            TestIndividual::WithFitness { .. } => true,
        }
    }

    pub fn new(fitness: u64) -> (r: Self)
        ensures
            r == (TestIndividual::WithFitness { fitness }),
            r.wf(),
    {
        TestIndividual::WithFitness { fitness }
    }
}

impl Individual for TestIndividual {
    open spec fn fitness_spec(&self) -> u64 {
        match self {
            TestIndividual::WithChromosome { chromosome } => clamped_sum(chromosome@) as u64,
            TestIndividual::WithFitness { fitness } => *fitness,
        }
    }

    open spec fn chromosome_spec(&self) -> Seq<i64> {
        match self {
            TestIndividual::WithChromosome { chromosome } => chromosome@,
            TestIndividual::WithFitness { .. } => Seq::empty(),
        }
    }

    open spec fn has_chromosome(&self) -> bool {
        self.wf() && self is WithChromosome
    }

    fn fitness(&self) -> (r: u64) {
        match self {
            TestIndividual::WithFitness { fitness } => *fitness,
            TestIndividual::WithChromosome { chromosome } => {
                let n: usize = chromosome.len();
                let mut acc: i128 = 0;
                let mut i: usize = 0;
                while i < n
                    invariant
                        i <= n,
                        n == chromosome@.len(),
                        acc as int == gene_sum(chromosome@.take(i as int)),
                        -(i as int) * 0x8000_0000_0000_0000 <= acc as int <= (i as int)
                            * 0x8000_0000_0000_0000,
                    decreases n - i,
                {
                    let g: i64 = chromosome.gene(i);
                    proof {
                        lemma_gene_sum_push(chromosome@.take(i as int), chromosome@[i as int]);
                        assert(chromosome@.take(i as int).push(chromosome@[i as int])
                            =~= chromosome@.take(i as int + 1));
                    }
                    acc = acc + g as i128;
                    i = i + 1;
                }
                proof {
                    assert(chromosome@.take(n as int) =~= chromosome@);
                }
                if acc < 0 {
                    0
                } else if acc > u64::MAX as i128 {
                    u64::MAX
                } else {
                    acc as u64
                }
            },
        }
    }

    fn chromosome(&self) -> (r: &Chromosome) {
        match self {
            TestIndividual::WithChromosome { chromosome } => chromosome,
            TestIndividual::WithFitness { .. } => vstd::pervasive::unreached(),
        }
    }

    fn create(chromosome: Chromosome) -> (r: Self) {
        TestIndividual::WithChromosome { chromosome }
    }
}

} // verus!
