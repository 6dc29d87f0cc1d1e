//! Fixed-point angles and trigonometry.
//!
//! Angles are fixed-point radians (six decimal places). `PI_FP` is chosen
//! even so that the quarter-, half- and full-turn constants are all exact
//! multiples of each other. The sine uses a rational approximation that is
//! exact at `0`, `HALF_PI_FP` and `PI_FP`; the arctangent uses a quadratic
//! approximation that is exact at `0` and on the diagonal. Both come with
//! proved range bounds, and their exact integer value is pinned by the spec
//! functions below, so every caller's contract is deterministic.

use vstd::prelude::*;
use vstd::arithmetic::div_mod::lemma_div_is_ordered;
use vstd::arithmetic::div_mod::lemma_div_by_multiple;
use vstd::arithmetic::div_mod::lemma_div_pos_is_pos;
use vstd::arithmetic::div_mod::lemma_fundamental_div_mod;
use crate::fixed::euclid_mod;
use crate::fixed::UNIT;

verus! {

pub const QUARTER_PI_FP: i64 = 785_398;

pub const HALF_PI_FP: i64 = 1_570_796;

pub const PI_FP: i64 = 3_141_592;

pub const TAU_FP: i64 = 6_283_184;

/// Curvature coefficient of the arctangent approximation ("0.273").
pub const ATAN_K: i64 = 273_000;

/// Half-wave sine on `[0, PI_FP]`, scaled by `UNIT`: the rational
/// approximation `16 x (pi - x) / (5 pi^2 - 4 x (pi - x))`.
pub open spec fn sin_half_spec(x: int) -> int {
    let t = x * (PI_FP as int - x);
    (16 * t * (UNIT as int)) / (5 * (PI_FP as int) * (PI_FP as int) - 4 * t)
}

/// Full-circle sine of any fixed-point angle.
pub open spec fn sin_spec(a: int) -> int {
    let m = a % (TAU_FP as int);
    if m <= PI_FP as int {
        sin_half_spec(m)
    } else {
        -sin_half_spec(m - PI_FP as int)
    }
}

/// Cosine as a quarter-turn phase shift of the sine.
pub open spec fn cos_spec(a: int) -> int {
    sin_spec(a + HALF_PI_FP as int)
}

/// Wrap an angle into `(-PI_FP, PI_FP]`.
pub open spec fn wrap_pi_spec(a: int) -> int {
    let m = a % (TAU_FP as int);
    if m > PI_FP as int {
        m - TAU_FP as int
    } else {
        m
    }
}

pub fn wrap_pi(a: i128) -> (r: i64)
    requires
        a > i128::MIN,
    ensures
        r as int == wrap_pi_spec(a as int),
        -PI_FP < r <= PI_FP,
{
    let m: i64 = euclid_mod(a, TAU_FP);
    if m > PI_FP {
        m - TAU_FP
    } else {
        m
    }
}

/// Exact value of the sine's numerator/denominator division, with its range.
fn sin_half(x: i64) -> (r: i64)
    requires
        0 <= x <= PI_FP,
    ensures
        r as int == sin_half_spec(x as int),
        0 <= r <= UNIT,
{
    let d: i64 = PI_FP - x;
    proof {
        assert(0 <= (x as int) * (d as int) && (x as int) * (d as int) <= 2_467_400_073_616)
            by (nonlinear_arith)
            requires
                0 <= x as int,
                0 <= d as int,
                (x as int) + (d as int) == 3_141_592,
        ;
    }
    let t: u64 = (x as u64) * (d as u64);
    proof {
        assert(16 * (t as int) * (UNIT as int) <= 0x1_0000_0000_0000_0000_0000)
            by (nonlinear_arith)
            requires
                0 <= t as int <= 2_467_400_073_616,
                UNIT as int == 1_000_000,
        ;
    }
    let num: u128 = 16 * (t as u128) * (UNIT as u128);
    let den: u128 = 5 * (PI_FP as u128) * (PI_FP as u128) - 4 * (t as u128);
    let q: u128 = num / den;
    proof {
        let ti = (x as int) * (PI_FP as int - x as int);
        let numi = 16 * ti * (UNIT as int);
        let deni = 5 * (PI_FP as int) * (PI_FP as int) - 4 * ti;
        assert(t as int == ti);
        assert(num as int == numi);
        assert(den as int == deni);
        assert(deni >= 9_869_604_040_064) by (nonlinear_arith)
            requires
                deni == 5 * (PI_FP as int) * (PI_FP as int) - 4 * ti,
                ti <= 2_467_400_073_616,
                PI_FP as int == 3_141_592,
        ;
        // the numerator is at most UNIT times the denominator, so q <= UNIT:
        // 16 t <= 5 pi^2 - 4 t reduces to t <= (pi/2)^2
        assert(numi <= deni * (UNIT as int)) by (nonlinear_arith)
            requires
                numi == 16 * ti * (UNIT as int),
                deni == 5 * (PI_FP as int) * (PI_FP as int) - 4 * ti,
                ti <= 2_467_400_073_616,
                2_467_400_073_616 == (HALF_PI_FP as int) * (HALF_PI_FP as int),
                PI_FP as int == 2 * (HALF_PI_FP as int),
                UNIT as int == 1_000_000,
        ;
        lemma_div_is_ordered(numi, deni * (UNIT as int), deni);
        lemma_div_by_multiple(UNIT as int, deni);
        lemma_div_pos_is_pos(numi, deni);
        assert(q as int == numi / deni);
        assert(q <= UNIT as u128);
        assert(sin_half_spec(x as int) == numi / deni);
    }
    q as i64
}

pub fn sin_fp(a: i64) -> (r: i64)
    ensures
        r as int == sin_spec(a as int),
        -UNIT <= r <= UNIT,
{
    let m: i64 = euclid_mod(a as i128, TAU_FP);
    if m <= PI_FP {
        sin_half(m)
    } else {
        -sin_half(m - PI_FP)
    }
}

pub fn cos_fp(a: i64) -> (r: i64)
    ensures
        r as int == cos_spec(a as int),
        -UNIT <= r <= UNIT,
{
    let m: i64 = euclid_mod(a as i128 + HALF_PI_FP as i128, TAU_FP);
    if m <= PI_FP {
        sin_half(m)
    } else {
        -sin_half(m - PI_FP)
    }
}

/// Arctangent of a ratio `z` in `[0, UNIT]` (so of a slope in `[0, 1]`),
/// scaled by `UNIT`: `z * (pi/4 + K (UNIT - z) / UNIT) / UNIT`.
pub open spec fn atan_unit_spec(z: int) -> int {
    (z * (QUARTER_PI_FP as int + ((ATAN_K as int) * ((UNIT as int) - z)) / (UNIT as int))) / (
    UNIT as int)
}

fn atan_unit(z: i64) -> (r: i64)
    requires
        0 <= z <= UNIT,
    ensures
        r as int == atan_unit_spec(z as int),
        0 <= r <= QUARTER_PI_FP,
        z == 0 ==> r == 0,
        z == UNIT ==> r == QUARTER_PI_FP,
{
    let ghost zi = z as int;
    let ghost ui = UNIT as int;
    let ghost ki = ATAN_K as int;
    let ghost qi = QUARTER_PI_FP as int;
    let ghost wi = (ki * (ui - zi)) / ui;
    proof {
        // the curvature term is between 0 and K
        assert(ki * (ui - zi) <= ki * ui) by (nonlinear_arith)
            requires
                0 <= zi <= ui,
                ki >= 0,
        ;
        lemma_div_is_ordered(ki * (ui - zi), ki * ui, ui);
        lemma_div_by_multiple(ki, ui);
        lemma_div_pos_is_pos(ki * (ui - zi), ui);
        assert(0 <= wi <= ki);
    }
    let w: u64 = (((ATAN_K as u128) * ((UNIT - z) as u128)) / (UNIT as u128)) as u64;
    let inner: u64 = (QUARTER_PI_FP as u64) + w;
    proof {
        assert(w as int == wi);
        // z * inner is at most QUARTER_PI * UNIT
        lemma_fundamental_div_mod(ki * (ui - zi), ui);
        assert(zi * (qi + wi) <= qi * ui) by (nonlinear_arith)
            requires
                0 <= zi <= ui,
                0 <= wi,
                wi * ui <= ki * (ui - zi),
                ki <= qi,
                ui > 0,
        ;
        assert(zi * (qi + wi) >= 0) by (nonlinear_arith)
            requires
                0 <= zi,
                0 <= wi,
                0 <= qi,
        ;
        lemma_div_is_ordered(zi * (qi + wi), qi * ui, ui);
        lemma_div_by_multiple(qi, ui);
        lemma_div_pos_is_pos(zi * (qi + wi), ui);
        if z == UNIT {
            assert(wi == 0);
            assert(zi * (qi + wi) == qi * ui) by (nonlinear_arith)
                requires
                    zi == ui,
                    wi == 0,
            ;
        }
    }
    let q: u64 = (((z as u128) * (inner as u128)) / (UNIT as u128)) as u64;
    q as i64
}

/// Four-quadrant arctangent over fixed-point coordinates, built from
/// `atan_unit_spec` by octant reduction. The result lies in
/// `[-PI_FP, PI_FP]`.
pub open spec fn atan2_spec(y: int, x: int) -> int {
    let ax = if x >= 0 { x } else { -x };
    let ay = if y >= 0 { y } else { -y };
    let theta = if ax >= ay {
        if ax == 0 {
            0
        } else {
            atan_unit_spec((ay * (UNIT as int)) / ax)
        }
    } else {
        HALF_PI_FP as int - atan_unit_spec((ax * (UNIT as int)) / ay)
    };
    let base = if x >= 0 { theta } else { PI_FP as int - theta };
    if y >= 0 { base } else { -base }
}

pub fn atan2_fp(y: i64, x: i64) -> (r: i64)
    requires
        -UNIT <= y <= UNIT,
        -UNIT <= x <= UNIT,
    ensures
        r as int == atan2_spec(y as int, x as int),
        -PI_FP <= r <= PI_FP,
{
    let ax: i64 = if x >= 0 { x } else { -x };
    let ay: i64 = if y >= 0 { y } else { -y };
    let theta: i64 = if ax >= ay {
        if ax == 0 {
            0
        } else {
            proof {
                assert((ay as int) * (UNIT as int) <= (ax as int) * (UNIT as int))
                    by (nonlinear_arith)
                    requires
                        0 <= ay as int <= ax as int,
                        UNIT as int > 0,
                ;
                lemma_div_is_ordered((ay as int) * (UNIT as int), (ax as int) * (UNIT as int),
                    ax as int);
                lemma_div_by_multiple(UNIT as int, ax as int);
                lemma_div_pos_is_pos((ay as int) * (UNIT as int), ax as int);
            }
            let z: i64 = (((ay as u128) * (UNIT as u128)) / (ax as u128)) as i64;
            atan_unit(z)
        }
    } else {
        proof {
            assert((ax as int) * (UNIT as int) <= (ay as int) * (UNIT as int)) by (nonlinear_arith)
                requires
                    0 <= ax as int <= ay as int,
                    UNIT as int > 0,
            ;
            lemma_div_is_ordered((ax as int) * (UNIT as int), (ay as int) * (UNIT as int),
                ay as int);
            lemma_div_by_multiple(UNIT as int, ay as int);
            lemma_div_pos_is_pos((ax as int) * (UNIT as int), ay as int);
        }
        let z: i64 = (((ax as u128) * (UNIT as u128)) / (ay as u128)) as i64;
        HALF_PI_FP - atan_unit(z)
    };
    let base: i64 = if x >= 0 {
        theta
    } else {
        PI_FP - theta
    };
    if y >= 0 {
        base
    } else {
        -base
    }
}

} // verus!
