//! Mutation strategies: perturb genes of one chromosome in place,
//! probabilistically.
//!
//! The "gaussian" strategy carries its family's customary name but draws no
//! true gaussian: with probability `chance` a gene moves by
//! `sign * coeff * u`, where `sign` is an even coin and `u` is uniform on
//! `[0, 1)`.

use vstd::prelude::*;
use rand_chacha::ChaCha8Rng;
use crate::chromosome::Chromosome;
use crate::rng::rng_below;
use crate::fixed::add_fx;
use crate::fixed::mul_fx;
use crate::fixed::fx_add;
use crate::fixed::fx_mul;
use crate::fixed::UNIT;
use crate::fixed::VAL_MAX;

verus! {

/// How one mutated gene may relate to its original: moved by
/// `coeff * u / UNIT` in either direction, for some draw `u` below `UNIT`.
pub open spec fn gene_perturbed(g0: i64, g1: i64, coeff: i64) -> bool {
    exists|u: int|
        0 <= u < UNIT as int && (g1 as int == add_fx(g0 as int, mul_fx(coeff as int, u))
            || g1 as int == add_fx(g0 as int, -mul_fx(coeff as int, u)))
}

#[derive(Clone, Copy, Debug)]
pub struct GaussianMutation {
    /// Probability of perturbing each gene, as a fixed-point fraction of one.
    pub chance: u64,
    /// Magnitude scale of a perturbation.
    pub coeff: i64,
}

impl GaussianMutation {
    pub fn new(chance: u64, coeff: i64) -> (r: Self)
        requires
            chance <= UNIT as u64,
            -VAL_MAX <= coeff <= VAL_MAX,
        ensures
            r.chance == chance,
            r.coeff == coeff,
    {
        GaussianMutation { chance, coeff }
    }

    /// Perturb each gene independently: with probability `chance`, move it
    /// by `coeff * u` for a fresh uniform `u` in `[0, 1)` and an even coin
    /// of a sign. A zero chance or a zero coefficient leaves the chromosome
    /// unchanged, bit for bit.
    pub fn mutate(&self, rng: &mut ChaCha8Rng, child: &mut Chromosome)
        requires
            old(child).wf(),
            self.chance <= UNIT as u64,
            -VAL_MAX <= self.coeff <= VAL_MAX,
        ensures
            final(child)@.len() == old(child)@.len(),
            final(child).wf(),
            forall|i: int|
                0 <= i < old(child)@.len() ==> #[trigger] final(child)@[i] == old(child)@[i]
                    || gene_perturbed(old(child)@[i], final(child)@[i], self.coeff),
            self.chance == 0 ==> final(child)@ == old(child)@,
            self.coeff == 0 ==> final(child)@ == old(child)@,
    {
        let n: usize = child.len();
        let mut i: usize = 0;
        while i < n
            invariant
                i <= n,
                n == old(child)@.len(),
                child@.len() == n,
                child.wf(),
                self.chance <= UNIT as u64,
                -VAL_MAX <= self.coeff <= VAL_MAX,
                forall|j: int| i <= j < n ==> #[trigger] child@[j] == old(child)@[j],
                forall|j: int|
                    0 <= j < i ==> #[trigger] child@[j] == old(child)@[j] || gene_perturbed(
                        old(child)@[j], child@[j], self.coeff),
                self.chance == 0 ==> child@ =~= old(child)@,
                self.coeff == 0 ==> child@ =~= old(child)@,
            decreases n - i,
        {
            let g: i64 = child.gene(i);
            let sign: u64 = rng_below(rng, 2);
            let hit: bool = rng_below(rng, UNIT as u64) < self.chance;
            if hit {
                let u: u64 = rng_below(rng, UNIT as u64);
                let step: i64 = fx_mul(self.coeff, u as i64);
                let moved: i64 = if sign == 1 {
                    fx_add(g, step)
                } else {
                    fx_add(g, -step)
                };
                proof {
                    assert(-VAL_MAX <= moved <= VAL_MAX);
                    assert(0 <= (u as int) && (u as int) < UNIT as int && (moved as int == add_fx(
                        g as int,
                        mul_fx(self.coeff as int, u as int),
                    ) || moved as int == add_fx(g as int, -mul_fx(self.coeff as int, u as int))));
                    assert(gene_perturbed(g, moved, self.coeff));
                    if self.coeff == 0 {
                        assert(0 * (u as int) == 0) by (nonlinear_arith);
                        vstd::arithmetic::div_mod::lemma_div_of0(UNIT as int);
                        assert(mul_fx(0, u as int) == 0);
                        assert(moved == g);
                    }
                }
                let ghost pre = child@;
                child.set_gene(i, moved);
                proof {
                    if self.coeff == 0 {
                        assert(child@ =~= pre);
                    }
                }
            }
            i = i + 1;
        }
    }
}

/// The closed set of mutation strategies, dispatching to the one chosen.
#[derive(Clone, Copy, Debug, PartialEq, Eq, Structural)]
pub enum Mutation {
    /// Probabilistic perturbation: `(chance, coeff)`, the chance as a
    /// fixed-point fraction of one.
    Gaussian(u64, i64),
}

impl Mutation {
    /// The per-gene perturbation probability.
    pub open spec fn chance_spec(&self) -> u64 {
        match self {
            Mutation::Gaussian(chance, _) => *chance,
        }
    }

    /// The perturbation magnitude scale.
    pub open spec fn coeff_spec(&self) -> i64 {
        match self {
            Mutation::Gaussian(_, coeff) => *coeff,
        }
    }

    /// The parameters lie in their meaningful ranges.
    pub open spec fn valid(&self) -> bool {
        self.chance_spec() <= UNIT as u64 && -VAL_MAX <= self.coeff_spec() <= VAL_MAX
    }

    pub fn mutate(&self, rng: &mut ChaCha8Rng, child: &mut Chromosome)
        requires
            old(child).wf(),
            self.valid(),
        ensures
            final(child)@.len() == old(child)@.len(),
            final(child).wf(),
            forall|i: int|
                0 <= i < old(child)@.len() ==> #[trigger] final(child)@[i] == old(child)@[i]
                    || gene_perturbed(old(child)@[i], final(child)@[i], self.coeff_spec()),
            self.chance_spec() == 0 ==> final(child)@ == old(child)@,
            self.coeff_spec() == 0 ==> final(child)@ == old(child)@,
    {
        match self {
            Mutation::Gaussian(chance, coeff) => GaussianMutation::new(*chance, *coeff).mutate(
                rng,
                child,
            ),
        }
    }
}

} // verus!
