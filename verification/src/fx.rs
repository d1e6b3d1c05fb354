//! Signed 64-bit fixed-point arithmetic with saturation.
//!
//! A value `v: i64` stands for the real number `v / FX_ONE`. Every operation
//! is total: results that would leave the `i64` range saturate at the range's
//! ends, and each executable function is proved to return exactly the value
//! of its spec-level mirror.

use vstd::prelude::*;

verus! {

/// Scaling unit: the fixed-point encoding of the real number one.
pub const FX_ONE: i64 = 4294967296;

/// Clamp an unbounded integer into the `i64` range.
pub open spec fn sat64(v: int) -> int {
    if v > i64::MAX as int {
        i64::MAX as int
    } else if v < i64::MIN as int {
        i64::MIN as int
    } else {
        v
    }
}

/// Divide a raw double-width product by the scaling unit, rounding the
/// magnitude down (truncation toward zero).
pub open spec fn scale_down(p: int) -> int {
    if p >= 0 {
        p / (FX_ONE as int)
    } else {
        -((-p) / (FX_ONE as int))
    }
}

pub open spec fn fx_add_spec(a: int, b: int) -> int {
    sat64(a + b)
}

pub open spec fn fx_sub_spec(a: int, b: int) -> int {
    sat64(a - b)
}

pub open spec fn fx_mul_spec(a: int, b: int) -> int {
    sat64(scale_down(a * b))
}

proof fn lemma_mul_bounds(a: int, b: int, m: int, n: int)
    by (nonlinear_arith)
    requires
        -m <= a <= m,
        -n <= b <= n,
        0 <= m,
        0 <= n,
    ensures
        -(m * n) <= a * b <= m * n,
{
}

fn sat_narrow(v: i128) -> (r: i64)
    ensures
        r as int == sat64(v as int),
{
    if v > i64::MAX as i128 {
        i64::MAX
    } else if v < i64::MIN as i128 {
        i64::MIN
    } else {
        v as i64
    }
}

/// Saturating fixed-point addition.
pub fn fx_add(a: i64, b: i64) -> (r: i64)
    ensures
        r as int == fx_add_spec(a as int, b as int),
{
    let s: i128 = a as i128 + b as i128;
    sat_narrow(s)
}

/// Saturating fixed-point subtraction.
pub fn fx_sub(a: i64, b: i64) -> (r: i64)
    ensures
        r as int == fx_sub_spec(a as int, b as int),
{
    let s: i128 = a as i128 - b as i128;
    sat_narrow(s)
}

/// Saturating fixed-point multiplication: the double-width product is scaled
/// back down by `FX_ONE`, truncating toward zero.
pub fn fx_mul(a: i64, b: i64) -> (r: i64)
    ensures
        r as int == fx_mul_spec(a as int, b as int),
{
    proof {
        lemma_mul_bounds(a as int, b as int, 0x8000_0000_0000_0000, 0x8000_0000_0000_0000);
    }
    let p: i128 = (a as i128) * (b as i128);
    if p >= 0 {
        let q: u128 = (p as u128) / (FX_ONE as u128);
        if q > i64::MAX as u128 {
            i64::MAX
        } else {
            q as i64
        }
    } else {
        let q: u128 = ((-p) as u128) / (FX_ONE as u128);
        if q >= 9223372036854775808u128 {
            i64::MIN
        } else {
            -(q as i64)
        }
    }
}

/// Division of a non-negative fixed-point value by a positive integer count
/// (used to turn a sum of squared deviations into a mean).
pub fn fx_div_count(a: i64, n: u64) -> (r: i64)
    requires
        a >= 0,
        n >= 1,
    ensures
        r as int == a as int / n as int,
{
    let q: u64 = (a as u64) / n;
    q as i64
}

/// Clamp a value into `[lo, hi]`.
pub fn fx_clamp(v: i64, lo: i64, hi: i64) -> (r: i64)
    requires
        lo <= hi,
    ensures
        r as int == (if v < lo {
            lo as int
        } else if v > hi {
            hi as int
        } else {
            v as int
        }),
        lo <= r <= hi,
{
    if v < lo {
        lo
    } else if v > hi {
        hi
    } else {
        v
    }
}

/// A non-negative value scaled by a factor in `[0, FX_ONE]` (at most one)
/// never grows and never turns negative.
pub proof fn lemma_scale_within(y: int, t: int)
    requires
        0 <= y <= i64::MAX as int,
        0 <= t <= FX_ONE as int,
    ensures
        0 <= fx_mul_spec(y, t) <= y,
{
    assert(0 <= y * t <= y * (FX_ONE as int)) by (nonlinear_arith)
        requires
            0 <= y,
            0 <= t <= FX_ONE as int,
    ;
    assert(scale_down(y * t) == (y * t) / (FX_ONE as int));
    assert((y * t) / (FX_ONE as int) <= (y * (FX_ONE as int)) / (FX_ONE as int)) by {
        vstd::arithmetic::div_mod::lemma_div_is_ordered(
            y * t,
            y * (FX_ONE as int),
            FX_ONE as int,
        );
    }
    assert((y * (FX_ONE as int)) / (FX_ONE as int) == y) by (nonlinear_arith)
        requires
            0 <= y,
    ;
    assert(0 <= (y * t) / (FX_ONE as int)) by {
        vstd::arithmetic::div_mod::lemma_div_is_ordered(0, y * t, FX_ONE as int);
    }
}

} // verus!
