//! Randomness, drawn from a seedable ChaCha stream.
//!
//! Every operation that needs chance takes an explicit `&mut ChaCha8Rng`, so
//! a fixed seed reproduces a run exactly. The two functions below are the
//! only trusted items of the crate: each wraps one sampling entry point of
//! the `rand` family, and states of the draw only what holds of every
//! outcome.

use vstd::prelude::*;
use rand_chacha::ChaCha8Rng;

verus! {

#[verifier::external_type_specification]
#[verifier::external_body]
pub struct ExChaCha8Rng(ChaCha8Rng);

/// Sum of a sequence of weights, as a mathematical integer.
pub open spec fn seq_sum(s: Seq<u64>) -> int
    decreases s.len(),
{
    if s.len() == 0 {
        0
    } else {
        s[0] + seq_sum(s.skip(1))
    }
}

pub proof fn lemma_seq_sum_push(s: Seq<u64>, x: u64)
    ensures
        seq_sum(s.push(x)) == seq_sum(s) + x,
    decreases s.len(),
{
    if s.len() == 0 {
        assert(s.push(x).skip(1) =~= Seq::<u64>::empty());
        assert(seq_sum(Seq::<u64>::empty()) == 0);
        assert(s.push(x)[0] == x);
    } else {
        assert(s.push(x).skip(1) =~= s.skip(1).push(x));
        lemma_seq_sum_push(s.skip(1), x);
        assert(s.push(x)[0] == s[0]);
    }
}

/// Relies on rand's `Rng::gen_range` over `0..bound`: the draw lies strictly
/// below the bound. The range is non-empty, so the call cannot panic.
#[verifier::external_body]
pub(crate) fn rng_below(rng: &mut ChaCha8Rng, bound: u64) -> (r: u64)
    requires
        bound >= 1,
    ensures
        r < bound,
{
    rand::Rng::gen_range(rng, 0..bound)
}

/// Relies on rand's `WeightedIndex::new` and `Distribution::sample`: `new`
/// fails exactly when the weights are empty or sum to zero (no `u64` weight
/// is negative, and the caller keeps the sum from overflowing), and `sample`
/// returns an index whose weight is positive, each index drawn with
/// probability proportional to its weight.
#[verifier::external_body]
pub(crate) fn rng_weighted(rng: &mut ChaCha8Rng, weights: &Vec<u64>) -> (r: Option<usize>)
    requires
        seq_sum(weights@) <= u64::MAX,
    ensures
        match r {
            Some(i) => i < weights@.len() && weights@[i as int] > 0,
            None => weights@.len() == 0 || seq_sum(weights@) == 0,
        },
{
    match rand::distributions::WeightedIndex::new(weights.iter().copied()) {
        Ok(dist) => Some(rand::distributions::Distribution::sample(&dist, rng)),
        Err(_) => None,
    }
}

} // verus!
