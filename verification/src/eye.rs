//! The eye: a stateless angular sensor.
//!
//! Food positions are converted, relative to the agent's position and
//! heading, into a fixed-length vector of per-cell energy readings. A food
//! item inside the sight range and field of view contributes
//! `(range - distance) / range` of energy to the angular bucket it falls
//! in; closer food contributes more, items in one bucket sum, and no
//! normalization is applied.

use vstd::prelude::*;
use crate::config::Config;
use crate::fixed::isqrt;
use crate::fixed::isqrt_spec;
use crate::fixed::lemma_isqrt_unique;
use crate::fixed::UNIT;
use crate::food::Food;
use crate::network::ints_of;
use crate::pos::Pos;
use crate::pos::pos_wf;
use crate::pos::dist2;
use crate::pos::dist2_spec;
use crate::trig::atan2_fp;
use crate::trig::atan2_spec;
use crate::trig::wrap_pi;
use crate::trig::wrap_pi_spec;
use crate::trig::TAU_FP;
use vstd::arithmetic::div_mod::lemma_div_pos_is_pos;
use vstd::arithmetic::div_mod::lemma_div_multiples_vanish;
use vstd::arithmetic::div_mod::lemma_multiply_divide_le;
use vstd::arithmetic::div_mod::lemma_small_mod;

verus! {

#[derive(Clone, Copy, Debug)]
pub struct Eye {
    pub fov_range: i64,
    pub fov_angle: i64,
    pub cells: usize,
}

/// The positions a food sequence holds.
pub open spec fn food_positions(food: Seq<Food>) -> Seq<Pos> {
    food.map(|i: int, f: Food| f.pos)
}

/// The bucket an admitted relative angle falls in: the angle is shifted by
/// half the field of view, mapped linearly onto the cells, and clamped to
/// the last index to absorb the upper boundary.
pub open spec fn seen_cell(eye: Eye, angle: int) -> int {
    let half = (eye.fov_angle as int) / 2;
    let c0 = ((angle + half) * (eye.cells as int)) / (eye.fov_angle as int);
    if c0 >= eye.cells as int {
        eye.cells as int - 1
    } else {
        c0
    }
}

/// The energy an admitted food item at the given distance contributes.
pub open spec fn seen_energy(eye: Eye, dist: int) -> int {
    ((eye.fov_range as int - dist) * (UNIT as int)) / (eye.fov_range as int)
}

/// What one food item contributes: nothing if out of range or out of the
/// field of view, else a bucket and an energy.
pub open spec fn food_seen(eye: Eye, pos: Pos, rot: int, f: Pos) -> Option<(int, int)> {
    let dist = isqrt_spec(dist2_spec(pos, f) as nat) as int;
    if dist >= eye.fov_range as int {
        None
    } else {
        let angle = wrap_pi_spec(atan2_spec(f.y - pos.y, f.x - pos.x) - rot);
        let half = (eye.fov_angle as int) / 2;
        if angle < -half || angle > half {
            None
        } else {
            Some((seen_cell(eye, angle), seen_energy(eye, dist)))
        }
    }
}

/// The vision vector after the first `k` food items.
pub open spec fn vision_acc(eye: Eye, pos: Pos, rot: int, food: Seq<Pos>, k: int) -> Seq<int>
    decreases k,
{
    if k <= 0 {
        Seq::new(eye.cells as nat, |i: int| 0)
    } else {
        let prev = vision_acc(eye, pos, rot, food, k - 1);
        match food_seen(eye, pos, rot, food[k - 1]) {
            None => prev,
            Some(ce) => prev.update(ce.0, prev[ce.0] + ce.1),
        }
    }
}

/// The full vision vector.
pub open spec fn vision_spec(eye: Eye, pos: Pos, rot: int, food: Seq<Pos>) -> Seq<int> {
    vision_acc(eye, pos, rot, food, food.len() as int)
}

/// An admitted food item's bucket lies inside the vector and its energy
/// inside `[0, UNIT]`.
proof fn lemma_food_seen_bounds(eye: Eye, pos: Pos, rot: int, f: Pos)
    requires
        eye.wf(),
    ensures
        match food_seen(eye, pos, rot, f) {
            None => true,
            Some(ce) => 0 <= ce.0 < eye.cells && 0 <= ce.1 <= UNIT,
        },
{
    let dist = isqrt_spec(dist2_spec(pos, f) as nat) as int;
    if dist < eye.fov_range as int {
        let angle = wrap_pi_spec(atan2_spec(f.y - pos.y, f.x - pos.x) - rot);
        let half = (eye.fov_angle as int) / 2;
        if !(angle < -half || angle > half) {
            lemma_div_pos_is_pos(eye.fov_angle as int, 2);
            assert((angle + half) * (eye.cells as int) <= (eye.fov_angle as int) * (
            eye.cells as int)) by (nonlinear_arith)
                requires
                    0 <= angle + half <= eye.fov_angle as int,
                    eye.cells as int >= 0,
            ;
            lemma_multiply_divide_le(
                (angle + half) * (eye.cells as int),
                eye.fov_angle as int,
                eye.cells as int,
            );
            assert((angle + half) * (eye.cells as int) >= 0) by (nonlinear_arith)
                requires
                    angle + half >= 0,
                    eye.cells as int >= 0,
            ;
            lemma_div_pos_is_pos((angle + half) * (eye.cells as int), eye.fov_angle as int);
            assert((eye.fov_range as int - dist) * (UNIT as int) <= (eye.fov_range as int) * (
            UNIT as int)) by (nonlinear_arith)
                requires
                    0 <= eye.fov_range as int - dist <= eye.fov_range as int,
                    UNIT as int > 0,
            ;
            lemma_multiply_divide_le(
                (eye.fov_range as int - dist) * (UNIT as int),
                eye.fov_range as int,
                UNIT as int,
            );
            lemma_div_pos_is_pos((eye.fov_range as int - dist) * (UNIT as int),
                eye.fov_range as int);
        }
    }
}

proof fn lemma_vision_acc_len(eye: Eye, pos: Pos, rot: int, food: Seq<Pos>, k: int)
    requires
        eye.wf(),
    ensures
        vision_acc(eye, pos, rot, food, k).len() == eye.cells,
    decreases k,
{
    if k > 0 {
        lemma_vision_acc_len(eye, pos, rot, food, k - 1);
        lemma_food_seen_bounds(eye, pos, rot, food[k - 1]);
        let prev = vision_acc(eye, pos, rot, food, k - 1);
        match food_seen(eye, pos, rot, food[k - 1]) {
            None => {},
            Some(ce) => {
                assert(prev.update(ce.0, prev[ce.0] + ce.1).len() == prev.len());
            },
        }
    } else {
        assert(vision_acc(eye, pos, rot, food, k).len() == Seq::new(
            eye.cells as nat,
            |i: int| 0int,
        ).len());
    }
}

/// The eye's output length equals its cell count for every food sequence,
/// including the empty one.
pub proof fn lemma_eye_output_len(eye: Eye, pos: Pos, rot: int, food: Seq<Pos>)
    requires
        eye.wf(),
    ensures
        vision_spec(eye, pos, rot, food).len() == eye.cells,
{
    lemma_vision_acc_len(eye, pos, rot, food, food.len() as int);
}

impl Eye {
    /// The configuration's sight parameters lie in their ranges.
    pub open spec fn wf(&self) -> bool {
        &&& 1 <= self.fov_range <= UNIT
        &&& 1 <= self.fov_angle <= TAU_FP
        &&& self.cells >= 1
    }

    pub fn new(config: &Config) -> (r: Eye)
        requires
            config.wf(),
        ensures
            r.wf(),
            r.fov_range == config.eye_range,
            r.fov_angle == config.eye_fov,
            r.cells == config.eye_cells,
    {
        Eye { fov_range: config.eye_range, fov_angle: config.eye_fov, cells: config.eye_cells }
    }

    pub fn cells(&self) -> (r: usize)
        ensures
            r == self.cells,
    {
        self.cells
    }

    /// Sense the food field: the returned vector has exactly `cells`
    /// entries, each the summed energy of the food admitted to its bucket.
    pub fn process_vision(&self, pos: Pos, rot: i64, food: &Vec<Food>) -> (r: Vec<i64>)
        requires
            self.wf(),
            pos_wf(pos),
            forall|i: int| 0 <= i < food@.len() ==> pos_wf((#[trigger] food@[i]).pos),
            food@.len() <= 1_000_000,
        ensures
            r@.len() == self.cells,
            ints_of(r@) == vision_spec(*self, pos, rot as int, food_positions(food@)),
    {
        let n_cells: usize = self.cells;
        let mut readings: Vec<i64> = Vec::new();
        let mut ci: usize = 0;
        while ci < n_cells
            invariant
                ci <= n_cells,
                readings@.len() == ci,
                forall|i: int| 0 <= i < ci ==> readings@[i] == 0,
            decreases n_cells - ci,
        {
            readings.push(0);
            ci = ci + 1;
        }
        proof {
            assert(ints_of(readings@) =~= vision_acc(
                *self,
                pos,
                rot as int,
                food_positions(food@),
                0,
            ));
        }
        let n_food: usize = food.len();
        let mut k: usize = 0;
        while k < n_food
            invariant
                k <= n_food,
                n_food == food@.len(),
                n_food <= 1_000_000,
                self.wf(),
                pos_wf(pos),
                forall|i: int| 0 <= i < food@.len() ==> pos_wf((#[trigger] food@[i]).pos),
                readings@.len() == self.cells,
                ints_of(readings@) == vision_acc(
                    *self,
                    pos,
                    rot as int,
                    food_positions(food@),
                    k as int,
                ),
                forall|i: int|
                    0 <= i < readings@.len() ==> 0 <= #[trigger] readings@[i] <= (k as int) * (
                    UNIT as int),
            decreases n_food - k,
        {
            let ghost fseq = food_positions(food@);
            let fp: Pos = food[k].pos;
            let d2: u64 = dist2(pos, fp);
            let dist: u64 = isqrt(d2);
            if dist < self.fov_range as u64 {
                let a0: i64 = atan2_fp(fp.y - pos.y, fp.x - pos.x);
                let angle: i64 = wrap_pi(a0 as i128 - rot as i128);
                let half: i64 = ((self.fov_angle as u64) / 2) as i64;
                proof {
                    vstd::arithmetic::div_mod::lemma_div_nonincreasing(self.fov_angle as int, 2);
                }
                if angle >= -half && angle <= half {
                    proof {
                        // the shifted angle is within the field of view, so
                        // the bucket index stays at or below the cell count
                        assert((angle as int + half as int) * (self.cells as int) <= (
                        self.fov_angle as int) * (self.cells as int)) by (nonlinear_arith)
                            requires
                                angle as int + half as int <= self.fov_angle as int,
                                0 <= angle as int + half as int,
                                self.cells as int >= 0,
                        ;
                        lemma_multiply_divide_le(
                            (angle as int + half as int) * (self.cells as int),
                            self.fov_angle as int,
                            self.cells as int,
                        );
                        assert((angle as int + half as int) * (self.cells as int) >= 0)
                            by (nonlinear_arith)
                            requires
                                angle as int + half as int >= 0,
                                self.cells as int >= 0,
                        ;
                        lemma_div_pos_is_pos(
                            (angle as int + half as int) * (self.cells as int),
                            self.fov_angle as int,
                        );
                    }
                    proof {
                        assert((angle as int + half as int) * (self.cells as int)
                            <= 10_000_000 * 0xffff_ffff_ffff_ffff) by (nonlinear_arith)
                            requires
                                0 <= angle as int + half as int <= 10_000_000,
                                0 <= self.cells as int <= 0xffff_ffff_ffff_ffff,
                        ;
                    }
                    let num: u128 = ((angle + half) as u128) * (self.cells as u128);
                    let c0: u128 = num / (self.fov_angle as u128);
                    let cell: usize = if c0 >= self.cells as u128 {
                        self.cells - 1
                    } else {
                        c0 as usize
                    };
                    proof {
                        // the energy fraction stays at or below one
                        assert((self.fov_range as int - dist as int) * (UNIT as int) <= (
                        self.fov_range as int) * (UNIT as int)) by (nonlinear_arith)
                            requires
                                0 <= self.fov_range as int - dist as int <= self.fov_range as int,
                                UNIT as int > 0,
                        ;
                        lemma_multiply_divide_le(
                            (self.fov_range as int - dist as int) * (UNIT as int),
                            self.fov_range as int,
                            UNIT as int,
                        );
                        lemma_div_pos_is_pos(
                            (self.fov_range as int - dist as int) * (UNIT as int),
                            self.fov_range as int,
                        );
                    }
                    let energy: i64 = ((((self.fov_range as u64) - dist) as u128) * (
                    UNIT as u128) / (self.fov_range as u128)) as i64;
                    let prev_v: i64 = readings[cell];
                    readings[cell] = prev_v + energy;
                    proof {
                        let seen = food_seen(*self, pos, rot as int, fseq[k as int]);
                        assert(fseq[k as int] == fp);
                        assert(seen == Some((cell as int, energy as int)));
                        assert(ints_of(readings@) =~= vision_acc(
                            *self,
                            pos,
                            rot as int,
                            fseq,
                            k as int,
                        ).update(cell as int, vision_acc(*self, pos, rot as int, fseq, k as int)[
                        cell as int] + energy as int));
                    }
                } else {
                    proof {
                        assert(food_seen(*self, pos, rot as int, fseq[k as int]) is None);
                    }
                }
            } else {
                proof {
                    assert(food_seen(*self, pos, rot as int, fseq[k as int]) is None);
                }
            }
            k = k + 1;
        }
        proof {
            assert(vision_acc(*self, pos, rot as int, food_positions(food@), n_food as int)
                == vision_spec(*self, pos, rot as int, food_positions(food@)));
        }
        readings
    }
}

/// A single food item exactly at the sight range contributes nothing: the
/// whole vision vector stays zero.
pub proof fn lemma_eye_range_boundary(eye: Eye, pos: Pos, rot: int, f: Pos)
    requires
        eye.wf(),
        dist2_spec(pos, f) == (eye.fov_range as int) * (eye.fov_range as int),
    ensures
        vision_spec(eye, pos, rot, seq![f]) == Seq::new(eye.cells as nat, |i: int| 0int),
{
    assert((eye.fov_range as int) * (eye.fov_range as int) < (eye.fov_range as int + 1) * (
    eye.fov_range as int + 1)) by (nonlinear_arith)
        requires
            eye.fov_range as int >= 1,
    ;
    lemma_isqrt_unique(dist2_spec(pos, f) as nat, eye.fov_range as nat);
    assert(food_seen(eye, pos, rot, f) is None);
    assert(vision_spec(eye, pos, rot, seq![f]) == vision_acc(eye, pos, rot, seq![f], 0));
}

/// A single food item at distance zero, seen straight ahead, contributes
/// the maximal energy of one whole unit to its bucket, and nothing
/// anywhere else.
pub proof fn lemma_eye_zero_distance(eye: Eye, pos: Pos)
    requires
        eye.wf(),
    ensures
        ({
            let v = vision_spec(eye, pos, 0, seq![pos]);
            let cell = seen_cell(eye, 0);
            &&& v.len() == eye.cells
            &&& 0 <= cell < eye.cells
            &&& v[cell] == UNIT
            &&& forall|i: int| 0 <= i < v.len() && i != cell ==> v[i] == 0
        }),
{
    let half = (eye.fov_angle as int) / 2;
    lemma_div_pos_is_pos(eye.fov_angle as int, 2);
    assert(isqrt_spec(0) == 0);
    assert(atan2_spec(0, 0) == 0);
    lemma_small_mod(0, TAU_FP as nat);
    assert(wrap_pi_spec(0) == 0);
    assert(food_seen(eye, pos, 0, pos) == Some((seen_cell(eye, 0), seen_energy(eye, 0))));
    // full energy at distance zero
    lemma_div_multiples_vanish(UNIT as int, eye.fov_range as int);
    assert((eye.fov_range as int - 0) * (UNIT as int) == (eye.fov_range as int) * (UNIT as int));
    assert(seen_energy(eye, 0) == UNIT);
    // the bucket lies inside the vector
    assert((0 + half) * (eye.cells as int) <= (eye.fov_angle as int) * (eye.cells as int))
        by (nonlinear_arith)
        requires
            0 <= half <= eye.fov_angle as int,
            eye.cells as int >= 0,
    ;
    lemma_multiply_divide_le(
        (0 + half) * (eye.cells as int),
        eye.fov_angle as int,
        eye.cells as int,
    );
    assert((0 + half) * (eye.cells as int) >= 0) by (nonlinear_arith)
        requires
            half >= 0,
            eye.cells as int >= 0,
    ;
    lemma_div_pos_is_pos((0 + half) * (eye.cells as int), eye.fov_angle as int);
    lemma_vision_acc_len(eye, pos, 0, seq![pos], 0);
    let v0 = vision_acc(eye, pos, 0, seq![pos], 0);
    let cell = seen_cell(eye, 0);
    assert(v0[cell] == 0);
    assert(vision_spec(eye, pos, 0, seq![pos]) == v0.update(cell, v0[cell] + UNIT));
}

} // verus!
