//! Fixed-point arithmetic for the generator core.
//!
//! Every coordinate, coefficient and weight is an `i64` counting raw
//! units of `1 / SCALE`; the value one is `SCALE` raw units. Products
//! are rescaled with truncation toward zero and saturated into the
//! `i64` range, so every operation is total: a non-contracting map can
//! drive points to the ends of the representable range, but never into
//! undefined behaviour.

use vstd::prelude::*;

verus! {

use vstd::arithmetic::div_mod::{lemma_div_pos_is_pos, lemma_div_nonincreasing};

/// Raw units per mathematical one.
pub const SCALE: i64 = 1_000_000;

/// Clamp an unbounded integer into the `i64` range.
pub open spec fn sat_i64(x: int) -> int {
    if x > i64::MAX as int {
        i64::MAX as int
    } else if x < i64::MIN as int {
        i64::MIN as int
    } else {
        x
    }
}

/// Quotient truncated toward zero (the machine's signed division), for a
/// positive divisor.
pub open spec fn div_trunc(a: int, b: int) -> int {
    if a >= 0 {
        a / b
    } else {
        -((-a) / b)
    }
}

/// Fixed-point product: the integer product of the raw values, rescaled
/// by `SCALE` with truncation toward zero, then saturated into `i64`.
pub open spec fn fx_mul_spec(a: int, b: int) -> int {
    sat_i64(div_trunc(a * b, SCALE as int))
}

/// The magnitude of a truncated quotient never exceeds the magnitude of
/// the dividend.
pub proof fn lemma_div_trunc_bounds(a: int, b: int)
    requires
        1 <= b,
    ensures
        a >= 0 ==> 0 <= div_trunc(a, b) <= a,
        a < 0 ==> a <= div_trunc(a, b) <= 0,
{
    if a >= 0 {
        lemma_div_pos_is_pos(a, b);
        lemma_div_nonincreasing(a, b);
    } else {
        lemma_div_pos_is_pos(-a, b);
        lemma_div_nonincreasing(-a, b);
    }
}

/// Saturate a 128-bit value into the `i64` range.
pub fn sat64(x: i128) -> (r: i64)
    ensures
        r as int == sat_i64(x as int),
{
    if x > i64::MAX as i128 {
        i64::MAX
    } else if x < i64::MIN as i128 {
        i64::MIN
    } else {
        x as i64
    }
}

/// Division of a 128-bit value by a positive divisor, truncating toward
/// zero as the machine's signed division does.
pub fn tdiv128(a: i128, b: i128) -> (r: i128)
    requires
        1 <= b,
        i128::MIN < a,
    ensures
        r as int == div_trunc(a as int, b as int),
{
    if a >= 0 {
        ((a as u128) / (b as u128)) as i128
    } else {
        let m: u128 = ((-a) as u128) / (b as u128);
        proof {
            lemma_div_pos_is_pos(-(a as int), b as int);
            lemma_div_nonincreasing(-(a as int), b as int);
        }
        -(m as i128)
    }
}

/// Fixed-point multiplication: `r` is the rescaled, truncated, saturated
/// product of `a` and `b`.
pub fn fx_mul(a: i64, b: i64) -> (r: i64)
    ensures
        r as int == fx_mul_spec(a as int, b as int),
{
    proof {
        assert((a as int) * (b as int) <= 0x4000_0000_0000_0000_0000_0000_0000_0000
            && (a as int) * (b as int) >= -0x4000_0000_0000_0000_0000_0000_0000_0000)
            by (nonlinear_arith)
            requires
                -0x8000_0000_0000_0000 <= a as int <= 0x7FFF_FFFF_FFFF_FFFF,
                -0x8000_0000_0000_0000 <= b as int <= 0x7FFF_FFFF_FFFF_FFFF,
        ;
    }
    let p: i128 = (a as i128) * (b as i128);
    let q: i128 = tdiv128(p, SCALE as i128);
    sat64(q)
}

/// Saturating three-way sum, used for `a*x + b*y + e`.
pub fn sat_add3(a: i64, b: i64, c: i64) -> (r: i64)
    ensures
        r as int == sat_i64(a + b + c),
{
    let s: i128 = (a as i128) + (b as i128) + (c as i128);
    sat64(s)
}

/// Division of an `i64` by a positive divisor, truncating toward zero.
pub fn tdiv64(a: i64, b: i64) -> (r: i64)
    requires
        1 <= b,
    ensures
        r as int == div_trunc(a as int, b as int),
{
    proof {
        lemma_div_trunc_bounds(a as int, b as int);
    }
    tdiv128(a as i128, b as i128) as i64
}

} // verus!
