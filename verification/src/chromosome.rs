//! A chromosome: an ordered, fixed-length sequence of fixed-point genes.
//!
//! The carrier is agnostic of what the genes represent; the network flattens
//! its weights into one, and the genetic operators rearrange and perturb
//! them. Every gene stays inside the saturating fixed-point domain.

use vstd::prelude::*;
use crate::fixed::VAL_MAX;

verus! {

/// All values of a gene sequence lie in the fixed-point domain.
pub open spec fn genes_bounded(s: Seq<i64>) -> bool {
    forall|i: int| 0 <= i < s.len() ==> -VAL_MAX <= #[trigger] s[i] <= VAL_MAX
}

#[derive(Clone, Debug)]
pub struct Chromosome {
    genes: Vec<i64>,
}

impl View for Chromosome {
    type V = Seq<i64>;

    closed spec fn view(&self) -> Seq<i64> {
        self.genes@
    }
}

impl Chromosome {
    /// Well-formed: every gene is inside the fixed-point domain.
    pub open spec fn wf(&self) -> bool {
        genes_bounded(self@)
    }

    pub fn from_genes(genes: Vec<i64>) -> (r: Chromosome)
        requires
            genes_bounded(genes@),
        ensures
            r@ == genes@,
            r.wf(),
    {
        Chromosome { genes }
    }

    pub fn len(&self) -> (r: usize)
        ensures
            r == self@.len(),
    {
        self.genes.len()
    }

    pub fn gene(&self, index: usize) -> (r: i64)
        requires
            index < self@.len(),
        ensures
            r == self@[index as int],
    {
        self.genes[index]
    }

    /// Replace one gene in place.
    pub fn set_gene(&mut self, index: usize, value: i64)
        requires
            index < old(self)@.len(),
            -VAL_MAX <= value <= VAL_MAX,
        ensures
            final(self)@ == old(self)@.update(index as int, value),
            old(self).wf() ==> final(self).wf(),
    {
        self.genes[index] = value;
        proof {
            assert(old(self).wf() ==> self.wf()) by {
                if old(self).wf() {
                    assert forall|i: int| 0 <= i < self@.len() implies -VAL_MAX
                        <= #[trigger] self@[i] <= VAL_MAX by {
                        if i != index as int {
                            assert(self@[i] == old(self)@[i]);
                        }
                    }
                }
            }
        }
    }
}

} // verus!
