//! Fixed-point arithmetic on signed integers.
//!
//! Every physical quantity of the simulation (length, time, velocity,
//! force, coefficient) is an `i64` holding the real value multiplied by
//! [`crate::FIXED_ONE`].  Products and quotients are rounded toward zero,
//! matching the division of the machine; the spec-level model of that
//! rounding is [`tdiv`].

use vstd::prelude::*;
use vstd::arithmetic::div_mod::{lemma_div_is_ordered, lemma_div_multiples_vanish, lemma_div_pos_is_pos, lemma_div_nonincreasing};
use crate::FIXED_ONE;

verus! {

/// Truncated (round-toward-zero) division by a positive divisor: the
/// semantics of `/` on the machine's signed integers.  Verus's own `/`
/// on `int` is Euclidean, which differs on negative dividends.
pub open spec fn tdiv(x: int, d: int) -> int
    recommends
        d > 0,
{
    if x >= 0 {
        x / d
    } else {
        -((-x) / d)
    }
}

/// Clamp `x` into the closed interval `[lo, hi]`.
pub open spec fn sclamp(x: int, lo: int, hi: int) -> int
    recommends
        lo <= hi,
{
    if x < lo {
        lo
    } else if x > hi {
        hi
    } else {
        x
    }
}

/// Truncated division never leaves the symmetric interval of the dividend.
pub proof fn lemma_tdiv_range(x: int, d: int, b: int)
    requires
        d > 0,
        0 <= b,
        -b <= x <= b,
    ensures
        -(b / d) <= tdiv(x, d) <= b / d,
{
    if x >= 0 {
        lemma_div_pos_is_pos(x, d);
        lemma_div_is_ordered(x, b, d);
    } else {
        lemma_div_pos_is_pos(-x, d);
        lemma_div_is_ordered(-x, b, d);
    }
}

/// Truncated division is exact on multiples of the divisor.
pub proof fn lemma_tdiv_exact(x: int, d: int)
    requires
        d > 0,
    ensures
        tdiv(x * d, d) == x,
{
    if x >= 0 {
        lemma_div_multiples_vanish(x, d);
        assert(x * d >= 0) by (nonlinear_arith)
            requires x >= 0 && d > 0;
        assert(x * d == d * x) by (nonlinear_arith);
    } else {
        lemma_div_multiples_vanish(-x, d);
        assert(x * d < 0) by (nonlinear_arith)
            requires x < 0 && d > 0;
        assert(-(x * d) == d * (-x)) by (nonlinear_arith);
    }
}

/// The quotient shrinks the magnitude of a nonnegative bound.
pub proof fn lemma_tdiv_shrinks(x: int, d: int, b: int)
    requires
        d > 0,
        0 <= b,
        -b <= x <= b,
    ensures
        -b <= tdiv(x, d) <= b,
{
    lemma_tdiv_range(x, d, b);
    lemma_div_nonincreasing(b, d);
    lemma_div_pos_is_pos(b, d);
}

/// A dividend bounded by `q * d` has its truncated quotient bounded by
/// `q`.
pub proof fn lemma_tdiv_quot_bound(x: int, d: int, q: int)
    requires
        d > 0,
        q >= 0,
        -(q * d) <= x <= q * d,
    ensures
        -q <= tdiv(x, d) <= q,
{
    assert(q * d >= 0) by (nonlinear_arith)
        requires q >= 0 && d > 0;
    lemma_tdiv_range(x, d, q * d);
    lemma_div_multiples_vanish(q, d);
    assert(q * d == d * q) by (nonlinear_arith);
}

/// The magnitude of a product of bounded factors is bounded by the
/// product of the bounds.
pub proof fn lemma_mul_bounds(x: int, y: int, xb: int, yb: int)
    by (nonlinear_arith)
    requires
        0 <= xb,
        0 <= yb,
        -xb <= x <= xb,
        -yb <= y <= yb,
    ensures
        -(xb * yb) <= x * y <= xb * yb,
{
}

/// Truncated division of a 128-bit value by a positive divisor.
pub fn tdiv_i128(x: i128, d: i128) -> (r: i128)
    requires
        d > 0,
        x > i128::MIN,
    ensures
        r as int == tdiv(x as int, d as int),
{
    if x >= 0 {
        ((x as u128) / (d as u128)) as i128
    } else {
        let m: u128 = (-x) as u128;
        proof {
            lemma_div_pos_is_pos(m as int, d as int);
            lemma_div_nonincreasing(m as int, d as int);
        }
        -((m / (d as u128)) as i128)
    }
}

/// Clamp an `i128` into an `i64` interval.
pub fn clamp_i128(x: i128, lo: i64, hi: i64) -> (r: i64)
    requires
        lo <= hi,
    ensures
        r as int == sclamp(x as int, lo as int, hi as int),
{
    if x < lo as i128 {
        lo
    } else if x > hi as i128 {
        hi
    } else {
        x as i64
    }
}

/// Clamp an `i64` into an interval.
pub fn clamp_i64(x: i64, lo: i64, hi: i64) -> (r: i64)
    requires
        lo <= hi,
    ensures
        r as int == sclamp(x as int, lo as int, hi as int),
{
    if x < lo {
        lo
    } else if x > hi {
        hi
    } else {
        x
    }
}

/// Fixed-point product: the real product of the two operands, rounded
/// toward zero.
pub open spec fn fmul(a: int, b: int) -> int {
    tdiv(a * b, FIXED_ONE as int)
}

/// Fixed-point product of two `i64` values whose mathematical result
/// fits in `i64`.
pub fn fixed_mul(a: i64, b: i64) -> (r: i64)
    requires
        i64::MIN <= fmul(a as int, b as int) <= i64::MAX,
    ensures
        r as int == fmul(a as int, b as int),
{
    proof {
        lemma_mul_bounds(a as int, b as int, 0x8000_0000_0000_0000, 0x8000_0000_0000_0000);
    }
    let p: i128 = (a as i128) * (b as i128);
    let q: i128 = tdiv_i128(p, FIXED_ONE as i128);
    q as i64
}

} // verus!
