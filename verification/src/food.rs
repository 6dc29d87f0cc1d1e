//! A food item: a point of the plane, repositioned whenever eaten and at
//! every generation boundary, never destroyed.

use vstd::prelude::*;
use rand_chacha::ChaCha8Rng;
use crate::pos::Pos;
use crate::pos::pos_wf;

verus! {

#[derive(Clone, Copy, Debug)]
pub struct Food {
    pub pos: Pos,
}

impl Food {
    pub fn random(rng: &mut ChaCha8Rng) -> (r: Food)
        ensures
            pos_wf(r.pos),
    {
        Food { pos: Pos::random(rng) }
    }

    pub fn position(&self) -> (r: Pos)
        ensures
            r == self.pos,
    {
        self.pos
    }
}

} // verus!
