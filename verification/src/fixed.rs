//! Saturating fixed-point arithmetic with six decimal places.
//!
//! A quantity `v` stands for the real number `v / 1_000_000`. All operations
//! saturate at `VAL_MAX`, so values never leave `[-VAL_MAX, VAL_MAX]` and no
//! operation can overflow or panic.

use vstd::prelude::*;
use vstd::arithmetic::div_mod::lemma_fundamental_div_mod;
use vstd::arithmetic::div_mod::lemma_fundamental_div_mod_converse_mod;

verus! {

/// One whole unit ("1.0"): values carry six decimal places.
pub const UNIT: i64 = 1_000_000;

/// Saturation bound of the fixed-point domain.
pub const VAL_MAX: i64 = 1_000_000_000_000;

/// Clamp a mathematical integer into the fixed-point domain.
pub open spec fn sat(x: int) -> int {
    if x > VAL_MAX as int {
        VAL_MAX as int
    } else if x < -(VAL_MAX as int) {
        -(VAL_MAX as int)
    } else {
        x
    }
}

/// Division by `UNIT` truncating toward zero, as the executable code does it.
pub open spec fn div_unit(x: int) -> int {
    if x >= 0 {
        x / (UNIT as int)
    } else {
        -((-x) / (UNIT as int))
    }
}

/// Saturating fixed-point addition.
pub open spec fn add_fx(a: int, b: int) -> int {
    sat(a + b)
}

/// Saturating fixed-point multiplication: `a * b / UNIT`, truncated toward
/// zero, then clamped.
pub open spec fn mul_fx(a: int, b: int) -> int {
    sat(div_unit(a * b))
}

/// Clamp into `[lo, hi]`.
pub open spec fn clamp_spec(x: int, lo: int, hi: int) -> int {
    if x < lo {
        lo
    } else if x > hi {
        hi
    } else {
        x
    }
}

pub fn fx_add(a: i64, b: i64) -> (r: i64)
    ensures
        r as int == add_fx(a as int, b as int),
{
    let s: i128 = a as i128 + b as i128;
    if s > VAL_MAX as i128 {
        VAL_MAX
    } else if s < -(VAL_MAX as i128) {
        -VAL_MAX
    } else {
        s as i64
    }
}

pub fn fx_mul(a: i64, b: i64) -> (r: i64)
    ensures
        r as int == mul_fx(a as int, b as int),
{
    proof {
        assert((a as int) * (b as int) <= i128::MAX as int
            && (a as int) * (b as int) >= -(i128::MAX as int)) by (nonlinear_arith)
            requires
                -0x8000_0000_0000_0000 <= a as int <= 0x7fff_ffff_ffff_ffff,
                -0x8000_0000_0000_0000 <= b as int <= 0x7fff_ffff_ffff_ffff,
        ;
    }
    let p: i128 = (a as i128) * (b as i128);
    if p >= 0 {
        let q: u128 = (p as u128) / (UNIT as u128);
        if q > VAL_MAX as u128 {
            VAL_MAX
        } else {
            q as i64
        }
    } else {
        let m: u128 = ((-p) as u128) / (UNIT as u128);
        if m > VAL_MAX as u128 {
            -VAL_MAX
        } else {
            -(m as i64)
        }
    }
}

/// Clamp a value into `[lo, hi]`.
pub fn fx_clamp(x: i64, lo: i64, hi: i64) -> (r: i64)
    requires
        lo <= hi,
    ensures
        r as int == clamp_spec(x as int, lo as int, hi as int),
{
    if x < lo {
        lo
    } else if x > hi {
        hi
    } else {
        x
    }
}

/// Euclidean remainder: the unique value in `[0, d)` congruent to `x`.
pub fn euclid_mod(x: i128, d: i64) -> (r: i64)
    requires
        1 <= d,
        x > i128::MIN,
    ensures
        r as int == (x as int) % (d as int),
        0 <= r < d,
{
    if x >= 0 {
        ((x as u128) % (d as u128)) as i64
    } else {
        let n: u128 = (-x) as u128;
        let q: u128 = n / (d as u128);
        let m: u128 = n % (d as u128);
        proof {
            let u = d as int;
            lemma_fundamental_div_mod(n as int, u);
            assert(n as int == u * (q as int) + m as int);
            if m == 0 {
                // x == (-q) * u, so x mod u == 0
                assert(x as int == (-(q as int)) * u + 0) by (nonlinear_arith)
                    requires
                        n as int == u * (q as int),
                        x as int == -(n as int),
                ;
                lemma_fundamental_div_mod_converse_mod(x as int, u, -(q as int), 0);
            } else {
                // x == (-q - 1) * u + (u - m) with 0 < u - m < u
                assert(x as int == (-(q as int) - 1) * u + (u - m as int)) by (nonlinear_arith)
                    requires
                        n as int == u * (q as int) + m as int,
                        x as int == -(n as int),
                ;
                lemma_fundamental_div_mod_converse_mod(x as int, u, -(q as int) - 1, u - m as int);
            }
        }
        if m == 0 {
            0
        } else {
            d - (m as i64)
        }
    }
}

/// Wrap a coordinate onto the torus `[0, UNIT)`.
pub fn wrap_unit(x: i128) -> (r: i64)
    requires
        x > i128::MIN,
    ensures
        r as int == (x as int) % (UNIT as int),
        0 <= r < UNIT,
{
    euclid_mod(x, UNIT)
}

/// The integer square root: the unique `r` with `r*r <= n < (r+1)*(r+1)`,
/// defined by counting up.
pub open spec fn isqrt_spec(n: nat) -> nat
    decreases n,
{
    if n == 0 {
        0
    } else {
        let p = isqrt_spec((n - 1) as nat);
        if (p + 1) * (p + 1) <= n {
            p + 1
        } else {
            p
        }
    }
}

pub proof fn lemma_isqrt_bounds(n: nat)
    ensures
        isqrt_spec(n) * isqrt_spec(n) <= n,
        n < (isqrt_spec(n) + 1) * (isqrt_spec(n) + 1),
    decreases n,
{
    if n > 0 {
        lemma_isqrt_bounds((n - 1) as nat);
        let p = isqrt_spec((n - 1) as nat);
        assert(isqrt_spec(n) == if (p + 1) * (p + 1) <= n { p + 1 } else { p });
        assert(p * p <= (n - 1) as nat);
        assert(((n - 1) as nat) < (p + 1) * (p + 1));
        if (p + 1) * (p + 1) <= n {
            // n - 1 < (p+1)*(p+1) <= n forces n == (p+1)*(p+1)
            assert(n == (p + 1) * (p + 1));
            assert(n < (p + 2) * (p + 2)) by (nonlinear_arith)
                requires
                    n == (p + 1) * (p + 1),
                    p >= 0,
            ;
            assert(isqrt_spec(n) == p + 1);
            assert(isqrt_spec(n) * isqrt_spec(n) <= n);
            assert(n < (isqrt_spec(n) + 1) * (isqrt_spec(n) + 1));
        } else {
            assert(isqrt_spec(n) == p);
            assert(isqrt_spec(n) * isqrt_spec(n) <= n);
            assert(n < (isqrt_spec(n) + 1) * (isqrt_spec(n) + 1));
        }
    } else {
        assert(isqrt_spec(n) == 0);
        assert(n < (isqrt_spec(n) + 1) * (isqrt_spec(n) + 1)) by (nonlinear_arith)
            requires
                n == 0,
                isqrt_spec(n) == 0,
        ;
    }
}

pub proof fn lemma_isqrt_unique(n: nat, r: nat)
    requires
        r * r <= n,
        n < (r + 1) * (r + 1),
    ensures
        r == isqrt_spec(n),
{
    lemma_isqrt_bounds(n);
    let s = isqrt_spec(n);
    assert(r == s) by (nonlinear_arith)
        requires
            r * r <= n,
            n < (r + 1) * (r + 1),
            s * s <= n,
            n < (s + 1) * (s + 1),
            r >= 0,
            s >= 0,
    ;
}

/// Integer square root by binary search.
pub fn isqrt(n: u64) -> (r: u64)
    ensures
        r as nat == isqrt_spec(n as nat),
        (r as int) * (r as int) <= n as int,
        (n as int) < (r as int + 1) * (r as int + 1),
{
    let mut lo: u64 = 0;
    let mut hi: u64 = 4_294_967_296;
    proof {
        assert((hi as int) * (hi as int) > n as int) by (nonlinear_arith)
            requires hi as int == 0x1_0000_0000, n as int <= 0xffff_ffff_ffff_ffff,
        ;
    }
    while hi - lo > 1
        invariant
            lo < hi,
            hi <= 4_294_967_296,
            (lo as int) * (lo as int) <= n as int,
            (n as int) < (hi as int) * (hi as int),
        decreases hi - lo,
    {
        let mid: u64 = lo + (hi - lo) / 2;
        proof {
            assert((mid as int) * (mid as int) <= 0x1_0000_0000_0000_0000) by (nonlinear_arith)
                requires 0 <= mid as int <= 0x1_0000_0000,
            ;
        }
        if (mid as u128) * (mid as u128) <= n as u128 {
            lo = mid;
        } else {
            hi = mid;
        }
    }
    proof {
        lemma_isqrt_unique(n as nat, lo as nat);
    }
    lo
}

/// Saturating multiplication of a count by `UNIT`, into the `u64` range.
pub open spec fn scale_to_fx(c: int) -> int {
    if c * (UNIT as int) > u64::MAX as int {
        u64::MAX as int
    } else {
        c * (UNIT as int)
    }
}

/// Scale a count into fixed point (multiply by `UNIT`), saturating at
/// `u64::MAX`.
pub fn fx_of_count(c: u64) -> (r: u64)
    ensures
        r as int == scale_to_fx(c as int),
{
    proof {
        assert((c as int) * (UNIT as int) <= u128::MAX as int) by (nonlinear_arith)
            requires 0 <= c as int <= u64::MAX as int, UNIT as int == 1_000_000,
        ;
    }
    let p: u128 = (c as u128) * (UNIT as u128);
    if p > u64::MAX as u128 {
        u64::MAX
    } else {
        p as u64
    }
}

} // verus!
