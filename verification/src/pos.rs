//! Points on the unit torus: both coordinates are fixed-point values in
//! `[0, 1)`, and wrap around on movement.

use vstd::prelude::*;
use rand_chacha::ChaCha8Rng;
use crate::fixed::UNIT;
use crate::rng::rng_below;

verus! {

#[derive(Clone, Copy, Debug, PartialEq, Eq, Structural)]
pub struct Pos {
    pub x: i64,
    pub y: i64,
}

/// Both coordinates wrapped into `[0, UNIT)`.
pub open spec fn pos_wf(p: Pos) -> bool {
    0 <= p.x < UNIT && 0 <= p.y < UNIT
}

/// Squared euclidean distance (no wrapping across the torus seam).
pub open spec fn dist2_spec(a: Pos, b: Pos) -> int {
    (a.x - b.x) * (a.x - b.x) + (a.y - b.y) * (a.y - b.y)
}

impl Pos {
    /// A uniform point of the plane.
    pub fn random(rng: &mut ChaCha8Rng) -> (r: Pos)
        ensures
            pos_wf(r),
    {
        Pos {
            x: rng_below(rng, UNIT as u64) as i64,
            y: rng_below(rng, UNIT as u64) as i64,
        }
    }
}

/// Squared distance between two points of the plane.
pub fn dist2(a: Pos, b: Pos) -> (r: u64)
    requires
        pos_wf(a),
        pos_wf(b),
    ensures
        r as int == dist2_spec(a, b),
{
    let dx: i64 = a.x - b.x;
    let dy: i64 = a.y - b.y;
    proof {
        assert(0 <= (dx as int) * (dx as int) && (dx as int) * (dx as int) < (UNIT as int) * (
        UNIT as int)) by (nonlinear_arith)
            requires
                -(UNIT as int) < (dx as int) && (dx as int) < UNIT as int,
        ;
        assert(0 <= (dy as int) * (dy as int) && (dy as int) * (dy as int) < (UNIT as int) * (
        UNIT as int)) by (nonlinear_arith)
            requires
                -(UNIT as int) < (dy as int) && (dy as int) < UNIT as int,
        ;
    }
    let qx: i128 = (dx as i128) * (dx as i128);
    let qy: i128 = (dy as i128) * (dy as i128);
    (qx + qy) as u64
}

} // verus!
