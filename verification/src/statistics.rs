//! Fitness summary of one outgoing generation: minimum, maximum and mean.

use vstd::prelude::*;
use crate::individual::Individual;
use crate::individual::fitness_seq;
use crate::rng::seq_sum;
use crate::rng::lemma_seq_sum_push;

verus! {

/// Minimum of a fitness sequence (`u64::MAX` on the empty one).
pub open spec fn seq_min(s: Seq<u64>) -> int
    decreases s.len(),
{
    if s.len() == 0 {
        u64::MAX as int
    } else {
        let rest = seq_min(s.skip(1));
        if s[0] <= rest {
            s[0] as int
        } else {
            rest
        }
    }
}

/// Maximum of a fitness sequence (`0` on the empty one).
pub open spec fn seq_max(s: Seq<u64>) -> int
    decreases s.len(),
{
    if s.len() == 0 {
        0
    } else {
        let rest = seq_max(s.skip(1));
        if s[0] >= rest {
            s[0] as int
        } else {
            rest
        }
    }
}

pub proof fn lemma_seq_min_push(s: Seq<u64>, x: u64)
    ensures
        seq_min(s.push(x)) == if x as int <= seq_min(s) {
            x as int
        } else {
            seq_min(s)
        },
    decreases s.len(),
{
    if s.len() == 0 {
        assert(s.push(x).skip(1) =~= Seq::<u64>::empty());
        assert(seq_min(Seq::<u64>::empty()) == u64::MAX as int);
        assert(s.push(x)[0] == x);
        assert(seq_min(s.push(x)) == x as int);
    } else {
        assert(s.push(x).skip(1) =~= s.skip(1).push(x));
        lemma_seq_min_push(s.skip(1), x);
        assert(s.push(x)[0] == s[0]);
    }
}

pub proof fn lemma_seq_max_push(s: Seq<u64>, x: u64)
    ensures
        seq_max(s.push(x)) == if x as int >= seq_max(s) {
            x as int
        } else {
            seq_max(s)
        },
    decreases s.len(),
{
    if s.len() == 0 {
        assert(s.push(x).skip(1) =~= Seq::<u64>::empty());
        assert(seq_max(Seq::<u64>::empty()) == 0);
        assert(s.push(x)[0] == x);
        assert(seq_max(s.push(x)) == x as int);
    } else {
        assert(s.push(x).skip(1) =~= s.skip(1).push(x));
        lemma_seq_max_push(s.skip(1), x);
        assert(s.push(x)[0] == s[0]);
    }
}

proof fn lemma_extremes_nonneg(s: Seq<u64>)
    ensures
        seq_min(s) >= 0,
        seq_max(s) >= 0,
    decreases s.len(),
{
    if s.len() > 0 {
        lemma_extremes_nonneg(s.skip(1));
    }
}

proof fn lemma_seq_sum_bounds(s: Seq<u64>)
    requires
        s.len() >= 1,
    ensures
        (s.len() as int) * seq_min(s) <= seq_sum(s),
        seq_sum(s) <= (s.len() as int) * seq_max(s),
    decreases s.len(),
{
    let rest = s.skip(1);
    if rest.len() == 0 {
        assert(rest =~= Seq::<u64>::empty());
        assert(seq_min(rest) == u64::MAX as int);
        assert(seq_max(rest) == 0);
        assert(seq_sum(rest) == 0);
        assert(seq_min(s) == s[0] as int);
        assert(seq_max(s) == s[0] as int);
        assert(seq_sum(s) == s[0] + seq_sum(rest));
        assert(1 * seq_min(s) == seq_min(s)) by (nonlinear_arith);
        assert(1 * seq_max(s) == seq_max(s)) by (nonlinear_arith);
    } else {
        lemma_seq_sum_bounds(rest);
        let n = s.len() as int;
        assert((n - 1) * seq_min(s) <= (n - 1) * seq_min(rest)) by (nonlinear_arith)
            requires
                seq_min(s) <= seq_min(rest),
                n >= 2,
        ;
        assert((n - 1) * seq_max(rest) <= (n - 1) * seq_max(s)) by (nonlinear_arith)
            requires
                seq_max(rest) <= seq_max(s),
                n >= 2,
        ;
        assert(n * seq_min(s) == seq_min(s) + (n - 1) * seq_min(s)) by (nonlinear_arith);
        assert(n * seq_max(s) == seq_max(s) + (n - 1) * seq_max(s)) by (nonlinear_arith);
    }
}

/// The mean of a non-empty fitness sequence, rounded down, lies between its
/// minimum and its maximum.
pub proof fn lemma_mean_between_extremes(s: Seq<u64>)
    requires
        s.len() >= 1,
    ensures
        seq_min(s) <= seq_sum(s) / (s.len() as int),
        seq_sum(s) / (s.len() as int) <= seq_max(s),
{
    let n = s.len() as int;
    lemma_extremes_nonneg(s);
    lemma_seq_sum_bounds(s);
    assert(n * seq_min(s) == seq_min(s) * n) by (nonlinear_arith);
    assert(n * seq_max(s) == seq_max(s) * n) by (nonlinear_arith);
    vstd::arithmetic::div_mod::lemma_div_is_ordered(seq_min(s) * n, seq_sum(s), n);
    vstd::arithmetic::div_mod::lemma_div_is_ordered(seq_sum(s), seq_max(s) * n, n);
    vstd::arithmetic::div_mod::lemma_div_by_multiple(seq_min(s), n);
    vstd::arithmetic::div_mod::lemma_div_by_multiple(seq_max(s), n);
}

/// Min, max and mean fitness of a population, computed over the generation
/// that is being replaced.
#[derive(Clone, Copy, Debug)]
pub struct Statistics {
    min: u64,
    max: u64,
    avg: u64,
}

impl Statistics {
    pub closed spec fn min_spec(&self) -> u64 {
        self.min
    }

    pub closed spec fn max_spec(&self) -> u64 {
        self.max
    }

    pub closed spec fn avg_spec(&self) -> u64 {
        self.avg
    }

    /// Summarize a non-empty population's fitness values: exact minimum and
    /// maximum, and the mean rounded down.
    pub fn new<I: Individual>(population: &Vec<I>) -> (r: Statistics)
        requires
            population@.len() >= 1,
        ensures
            r.min_spec() as int == seq_min(fitness_seq(population@)),
            r.max_spec() as int == seq_max(fitness_seq(population@)),
            r.avg_spec() as int == seq_sum(fitness_seq(population@)) / (population@.len() as int),
    {
        let n: usize = population.len();
        let mut min: u64 = u64::MAX;
        let mut max: u64 = 0;
        let mut sum: u128 = 0;
        let mut i: usize = 0;
        while i < n
            invariant
                i <= n,
                n == population@.len(),
                min as int == seq_min(fitness_seq(population@).take(i as int)),
                max as int == seq_max(fitness_seq(population@).take(i as int)),
                sum as int == seq_sum(fitness_seq(population@).take(i as int)),
                sum as int <= (u64::MAX as int) * (i as int),
            decreases n - i,
        {
            let f: u64 = population[i].fitness();
            proof {
                let fits = fitness_seq(population@);
                lemma_seq_min_push(fits.take(i as int), fits[i as int]);
                lemma_seq_max_push(fits.take(i as int), fits[i as int]);
                lemma_seq_sum_push(fits.take(i as int), fits[i as int]);
                assert(fits.take(i as int).push(fits[i as int]) =~= fits.take(i as int + 1));
                assert(fits[i as int] == population@[i as int].fitness_spec());
            }
            if f < min {
                min = f;
            }
            if f > max {
                max = f;
            }
            sum = sum + f as u128;
            i = i + 1;
        }
        proof {
            let fits = fitness_seq(population@);
            assert(fits.take(n as int) =~= fits);
            vstd::arithmetic::div_mod::lemma_div_is_ordered(
                sum as int,
                (u64::MAX as int) * (n as int),
                n as int,
            );
            vstd::arithmetic::div_mod::lemma_div_by_multiple(u64::MAX as int, n as int);
            vstd::arithmetic::div_mod::lemma_div_pos_is_pos(sum as int, n as int);
        }
        let avg: u64 = (sum / (n as u128)) as u64;
        Statistics { min, max, avg }
    }

    pub fn min_fitness(&self) -> (r: u64)
        ensures
            r == self.min_spec(),
    {
        self.min
    }

    pub fn max_fitness(&self) -> (r: u64)
        ensures
            r == self.max_spec(),
    {
        self.max
    }

    pub fn avg_fitness(&self) -> (r: u64)
        ensures
            r == self.avg_spec(),
    {
        self.avg
    }
}

} // verus!
