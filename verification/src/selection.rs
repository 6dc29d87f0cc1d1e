//! Selection strategies: each picks one member of a population, given only
//! each member's scalar fitness, and returns the chosen index.
//!
//! Roulette selection draws with probability proportional to fitness; where
//! every fitness is zero (or the fitness total leaves the `u64` range) it
//! falls back to a uniform draw, a documented policy for a degenerate state
//! the strategy cannot weight. Rank selection weights each member by one
//! plus the number of members it strictly beats, so ties share their score.
//! Tournament selection draws a tournament size uniformly from `[0, n)` and
//! keeps the best of the drawn candidates, ties favoring the latest draw.

use vstd::prelude::*;
use rand_chacha::ChaCha8Rng;
use crate::individual::Individual;
use crate::individual::fitness_seq;
use crate::rng::rng_below;
use crate::rng::rng_weighted;
use crate::rng::seq_sum;
use crate::rng::lemma_seq_sum_push;

verus! {

#[derive(Clone, Copy, Debug, Default)]
pub struct RouletteSelection;

#[derive(Clone, Copy, Debug, Default)]
pub struct RankSelection;

#[derive(Clone, Copy, Debug, Default)]
pub struct TournamentSelection;

/// Draw an index weighted by the given weights; where the weights are all
/// zero or their sum leaves the `u64` range, draw uniformly instead.
fn select_weighted(rng: &mut ChaCha8Rng, weights: &Vec<u64>) -> (r: usize)
    requires
        weights@.len() >= 1,
    ensures
        r < weights@.len(),
        0 < seq_sum(weights@) <= u64::MAX ==> weights@[r as int] > 0,
{
    let n: usize = weights.len();
    let mut total: u64 = 0;
    let mut ok: bool = true;
    let mut i: usize = 0;
    while i < n
        invariant
            i <= n,
            n == weights@.len(),
            ok ==> total as int == seq_sum(weights@.take(i as int)),
            !ok ==> seq_sum(weights@.take(i as int)) > u64::MAX,
        decreases n - i,
    {
        let w: u64 = weights[i];
        proof {
            lemma_seq_sum_push(weights@.take(i as int), weights@[i as int]);
            assert(weights@.take(i as int).push(weights@[i as int]) =~= weights@.take(
            i as int + 1));
        }
        if ok {
            if total > u64::MAX - w {
                ok = false;
            } else {
                total = total + w;
            }
        }
        i = i + 1;
    }
    proof {
        assert(weights@.take(n as int) =~= weights@);
    }
    if ok {
        match rng_weighted(rng, weights) {
            Some(chosen) => chosen,
            None => rng_below(rng, n as u64) as usize,
        }
    } else {
        rng_below(rng, n as u64) as usize
    }
}

impl RouletteSelection {
    /// Weighted draw over raw fitness values.
    pub fn select<I: Individual>(&self, rng: &mut ChaCha8Rng, population: &Vec<I>) -> (r: usize)
        requires
            population@.len() >= 1,
        ensures
            r < population@.len(),
            0 < seq_sum(fitness_seq(population@)) <= u64::MAX ==> population@[
            r as int].fitness_spec() > 0,
    {
        let n: usize = population.len();
        let mut weights: Vec<u64> = Vec::new();
        let mut i: usize = 0;
        while i < n
            invariant
                i <= n,
                n == population@.len(),
                weights@.len() == i,
                forall|j: int|
                    0 <= j < i ==> weights@[j] == #[trigger] population@[j].fitness_spec(),
            decreases n - i,
        {
            let f: u64 = population[i].fitness();
            weights.push(f);
            i = i + 1;
        }
        proof {
            assert(weights@ =~= fitness_seq(population@));
        }
        select_weighted(rng, &weights)
    }
}

/// The rank of member `i`: one more than the number of members with strictly
/// smaller fitness, counted over the first `k` members.
pub open spec fn count_beaten(fits: Seq<u64>, v: u64, k: int) -> int
    decreases k,
{
    if k <= 0 {
        0
    } else {
        count_beaten(fits, v, k - 1) + if fits[k - 1] < v {
            1int
        } else {
            0int
        }
    }
}

/// The weight rank selection gives member `i` of a population.
pub open spec fn rank_of(fits: Seq<u64>, i: int) -> int {
    1 + count_beaten(fits, fits[i], fits.len() as int)
}

impl RankSelection {
    /// The rank of every member: ties share a score, since equally beaten
    /// members count the same set.
    pub fn ranks<I: Individual>(population: &Vec<I>) -> (r: Vec<u64>)
        requires
            population@.len() < u64::MAX,
        ensures
            r@.len() == population@.len(),
            forall|i: int|
                0 <= i < population@.len() ==> #[trigger] r@[i] as int == rank_of(
                    fitness_seq(population@), i),
    {
        let n: usize = population.len();
        let mut ranks: Vec<u64> = Vec::new();
        let mut i: usize = 0;
        while i < n
            invariant
                i <= n,
                n == population@.len(),
                n < u64::MAX,
                ranks@.len() == i,
                forall|k: int|
                    0 <= k < i ==> #[trigger] ranks@[k] as int == rank_of(
                        fitness_seq(population@), k),
            decreases n - i,
        {
            let fi: u64 = population[i].fitness();
            let mut count: u64 = 0;
            let mut j: usize = 0;
            while j < n
                invariant
                    j <= n,
                    i < n,
                    n == population@.len(),
                    n < u64::MAX,
                    fi == fitness_seq(population@)[i as int],
                    count as int == count_beaten(fitness_seq(population@), fi, j as int),
                    count <= j,
                decreases n - j,
            {
                let fj: u64 = population[j].fitness();
                if fj < fi {
                    count = count + 1;
                }
                j = j + 1;
            }
            ranks.push(count + 1);
            i = i + 1;
        }
        ranks
    }

    /// Weighted draw over ranks.
    pub fn select<I: Individual>(&self, rng: &mut ChaCha8Rng, population: &Vec<I>) -> (r: usize)
        requires
            1 <= population@.len() < u64::MAX,
        ensures
            r < population@.len(),
    {
        let ranks: Vec<u64> = Self::ranks(population);
        select_weighted(rng, &ranks)
    }
}

impl TournamentSelection {
    /// Draw a tournament size uniformly from `[0, n)`, then keep the
    /// fittest of that many draws against an initial uniform candidate,
    /// ties favoring the latest draw.
    pub fn select<I: Individual>(&self, rng: &mut ChaCha8Rng, population: &Vec<I>) -> (r: usize)
        requires
            population@.len() >= 1,
        ensures
            r < population@.len(),
    {
        let n: usize = population.len();
        let rounds: u64 = rng_below(rng, n as u64);
        let mut selected: usize = rng_below(rng, n as u64) as usize;
        let mut best: u64 = 0;
        let mut k: u64 = 0;
        while k < rounds
            invariant
                n == population@.len(),
                n >= 1,
                selected < n,
            decreases rounds - k,
        {
            let candidate: usize = rng_below(rng, n as u64) as usize;
            let f: u64 = population[candidate].fitness();
            if f >= best {
                best = f;
                selected = candidate;
            }
            k = k + 1;
        }
        selected
    }
}

/// The closed set of selection strategies, dispatching to the one chosen.
#[derive(Clone, Copy, Debug, PartialEq, Eq, Structural)]
pub enum Selection {
    Rank,
    Roulette,
    Tournament,
}

impl Selection {
    pub fn select<I: Individual>(&self, rng: &mut ChaCha8Rng, population: &Vec<I>) -> (r: usize)
        requires
            1 <= population@.len() < u64::MAX,
        ensures
            r < population@.len(),
            self is Roulette && 0 < seq_sum(fitness_seq(population@)) <= u64::MAX
                ==> population@[r as int].fitness_spec() > 0,
    {
        match self {
            Selection::Rank => RankSelection.select(rng, population),
            Selection::Roulette => RouletteSelection.select(rng, population),
            Selection::Tournament => TournamentSelection.select(rng, population),
        }
    }
}

} // verus!
