//! Fixed-point scalars.
//!
//! A real value `x` is represented by the `i64` holding `x * SCALE`, rounded
//! toward zero. This module holds the shared constants and the few arithmetic
//! helpers (truncating division, wide multiplication, clamping) that the rest
//! of the library builds on, each with an exact contract.

use vstd::prelude::*;

verus! {

/// One unit (the real value 1.0) in the fixed-point representation.
pub const SCALE: i64 = 1_000_000;

/// Largest dimension a session accepts; keeps every squared distance within
/// `i64` range.
pub const MAX_DIM: usize = 4096;

/// Largest number of training points a dataset may hold; keeps every
/// accumulated dot product within `i128` range.
pub const MAX_POINTS: usize = 100_000;

/// Magnitude bound on latent utility values (the real value 1000.0).
pub const LATENT_BOUND: i64 = 1_000_000_000;

/// Magnitude bound on solved regression weights (the real value 1,000,000.0).
pub const WEIGHT_BOUND: i64 = 1_000_000_000_000;

/// Absolute value over mathematical integers.
pub open spec fn iabs(x: int) -> int {
    if x < 0 {
        -x
    } else {
        x
    }
}

/// Division rounding toward zero: the semantics of every fixed-point
/// division in this library.
pub open spec fn div_tz(n: int, d: int) -> int
    recommends
        d > 0,
{
    if n >= 0 {
        n / d
    } else {
        -((-n) / d)
    }
}

/// Clamp `x` into `[-b, b]`.
pub open spec fn clamp_spec(x: int, b: int) -> int {
    if x < -b {
        -b
    } else if x > b {
        b
    } else {
        x
    }
}

/// A product of values bounded in magnitude is bounded by the product of the
/// bounds.
pub proof fn lemma_mul_bound(x: int, y: int, bx: int, by: int)
    requires
        iabs(x) <= bx,
        iabs(y) <= by,
    ensures
        iabs(x * y) <= bx * by,
{
    assert(iabs(x * y) <= bx * by) by (nonlinear_arith)
        requires
            iabs(x) <= bx,
            iabs(y) <= by,
    ;
}

/// Truncating division shrinks magnitude: if `|n| <= b * d` then
/// `|div_tz(n, d)| <= b`.
pub proof fn lemma_div_tz_bound(n: int, d: int, b: int)
    requires
        d > 0,
        b >= 0,
        iabs(n) <= b * d,
    ensures
        iabs(div_tz(n, d)) <= b,
        n >= 0 ==> div_tz(n, d) >= 0,
        n <= 0 ==> div_tz(n, d) <= 0,
{
    assert(n >= 0 ==> 0 <= n / d <= b) by (nonlinear_arith)
        requires
            d > 0,
            b >= 0,
            iabs(n) <= b * d,
    ;
    assert(n < 0 ==> 0 <= (-n) / d <= b) by (nonlinear_arith)
        requires
            d > 0,
            b >= 0,
            iabs(n) <= b * d,
    ;
}

/// Dividing a multiple is exact: `div_tz(k * d, d) == k`.
pub proof fn lemma_div_tz_exact(k: int, d: int)
    requires
        d > 0,
    ensures
        div_tz(k * d, d) == k,
{
    assert(k >= 0 ==> (k * d) / d == k) by (nonlinear_arith)
        requires
            d > 0,
    ;
    assert(k < 0 ==> (-(k * d)) == (-k) * d) by (nonlinear_arith);
    assert(k < 0 ==> ((-k) * d) / d == -k) by (nonlinear_arith)
        requires
            d > 0,
    ;
}

/// Exact wide product of two machine words.
pub fn mul_wide(a: i64, b: i64) -> (r: i128)
    ensures
        r == a as int * b as int,
{
    proof {
        assert(i128::MIN <= a as int * b as int <= i128::MAX) by (nonlinear_arith)
            requires
                i64::MIN <= a <= i64::MAX,
                i64::MIN <= b <= i64::MAX,
        ;
    }
    (a as i128) * (b as i128)
}

/// Division of a nonnegative numerator by a positive divisor.
pub fn div_nn(a: i64, d: i64) -> (r: i64)
    requires
        a >= 0,
        d > 0,
    ensures
        r == a as int / d as int,
        0 <= r <= a,
{
    proof {
        assert(0 <= a as int / d as int <= a as int) by (nonlinear_arith)
            requires
                a >= 0,
                d > 0,
        ;
    }
    (a as u64 / d as u64) as i64
}

/// Truncating division on wide intermediates.
pub fn div_tz_wide(n: i128, d: i128) -> (r: i128)
    requires
        d > 0,
        n > i128::MIN,
    ensures
        r == div_tz(n as int, d as int),
        iabs(r as int) <= iabs(n as int),
{
    proof {
        assert(n >= 0 ==> 0 <= n as int / d as int <= n as int) by (nonlinear_arith)
            requires
                d > 0,
        ;
        assert(n < 0 ==> 0 <= (-(n as int)) / (d as int) <= -(n as int)) by (nonlinear_arith)
            requires
                d > 0,
        ;
    }
    if n >= 0 {
        ((n as u128) / (d as u128)) as i128
    } else {
        let m: u128 = ((-n) as u128) / (d as u128);
        -(m as i128)
    }
}

/// Clamp a wide intermediate back into `[-b, b]`.
pub fn clamp_wide(x: i128, b: i64) -> (r: i64)
    requires
        b > 0,
    ensures
        r == clamp_spec(x as int, b as int),
        -b <= r <= b,
{
    if x < -(b as i128) {
        -b
    } else if x > b as i128 {
        b
    } else {
        x as i64
    }
}

} // verus!
