//! Small arithmetic helpers shared by the fixed-point computations.

use vstd::prelude::*;

verus! {

/// Truncating division (round toward zero), defined for positive divisors.
pub open spec fn div_trunc(a: int, b: int) -> int
    recommends
        b > 0,
{
    if a >= 0 {
        a / b
    } else {
        -((-a) / b)
    }
}

/// Clamp `x` into the closed interval `[lo, hi]`.
pub open spec fn clamp(x: int, lo: int, hi: int) -> int
    recommends
        lo <= hi,
{
    if x < lo {
        lo
    } else if x > hi {
        hi
    } else {
        x
    }
}

/// Truncating division on `i128`, as Rust's `/` computes it.
pub fn div_trunc_i128(a: i128, b: i128) -> (r: i128)
    requires
        b > 0,
        a > i128::MIN,
    ensures
        r == div_trunc(a as int, b as int),
{
    let q = a.checked_div(b);
    q.unwrap()
}

/// Clamp on `i128`.
pub fn clamp_i128(x: i128, lo: i128, hi: i128) -> (r: i128)
    requires
        lo <= hi,
    ensures
        r == clamp(x as int, lo as int, hi as int),
{
    if x < lo {
        lo
    } else if x > hi {
        hi
    } else {
        x
    }
}

/// Absolute value on `i64`.
pub fn abs_i64(x: i64) -> (r: i64)
    requires
        x > i64::MIN,
    ensures
        r == vstd::math::abs(x as int),
{
    if x < 0 {
        -x
    } else {
        x
    }
}

/// The product of two values is bounded by the product of their bounds.
pub proof fn lemma_mul_abs_bound(a: int, am: int, b: int, bm: int)
    requires
        -am <= a <= am,
        -bm <= b <= bm,
        0 <= am,
        0 <= bm,
    ensures
        -(am * bm) <= a * b <= am * bm,
{
    assert(-(am * bm) <= a * b <= am * bm) by (nonlinear_arith)
        requires
            -am <= a <= am,
            -bm <= b <= bm,
            0 <= am,
            0 <= bm,
    ;
}

/// Truncating division never grows a value's magnitude.
pub proof fn lemma_div_trunc_bound(a: int, b: int)
    requires
        b >= 1,
    ensures
        a >= 0 ==> 0 <= div_trunc(a, b) <= a,
        a < 0 ==> a <= div_trunc(a, b) <= 0,
{
    if a >= 0 {
        vstd::arithmetic::div_mod::lemma_div_is_ordered_by_denominator(a, 1, b);
        vstd::arithmetic::div_mod::lemma_div_multiples_vanish(a, 1);
        vstd::arithmetic::div_mod::lemma_div_is_ordered(0, a, b);
    } else {
        vstd::arithmetic::div_mod::lemma_div_is_ordered_by_denominator(-a, 1, b);
        vstd::arithmetic::div_mod::lemma_div_multiples_vanish(-a, 1);
        vstd::arithmetic::div_mod::lemma_div_is_ordered(0, -a, b);
    }
}

/// Milliseconds elapsed between two clock readings, zero if the clock moved
/// backwards.
pub fn elapsed_ms(now: u64, earlier: u64) -> (r: u64)
    ensures
        r == if now >= earlier {
            now - earlier
        } else {
            0
        },
{
    now.saturating_sub(earlier)
}

} // verus!
