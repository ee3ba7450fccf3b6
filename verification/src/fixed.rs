//! Saturating signed fixed-point arithmetic with sixteen fractional bits.
//!
//! A `Fixed` value `a` stands for the rational number `a / 65536`. Every
//! operation computes the exact integer result, rounds it towards negative
//! infinity where a division is involved, and clamps it into
//! `[FIXED_MIN, FIXED_MAX]`, so no operation can overflow.

use vstd::prelude::*;
use vstd::arithmetic::div_mod::{
    lemma_fundamental_div_mod, lemma_fundamental_div_mod_converse, lemma_mod_bound,
};

verus! {

/// A fixed-point number: the integer `a` stands for `a / ONE`.
pub type Fixed = i64;

/// The fixed-point representation of 1.
pub const ONE: i64 = 65536;

/// The fixed-point representation of 1/2.
pub const HALF: i64 = 32768;

/// Largest value that the saturating operations produce.
pub const FIXED_MAX: i64 = 0x4000_0000_0000_0000;

/// Smallest value that the saturating operations produce.
pub const FIXED_MIN: i64 = -0x4000_0000_0000_0000;

/// Clamps an exact integer into the representable range.
pub open spec fn saturate(v: int) -> i64 {
    if v < FIXED_MIN as int {
        FIXED_MIN
    } else if v > FIXED_MAX as int {
        FIXED_MAX
    } else {
        v as i64
    }
}

/// Saturating sum.
pub open spec fn fx_add_spec(a: Fixed, b: Fixed) -> Fixed {
    saturate(a + b)
}

/// Saturating difference.
pub open spec fn fx_sub_spec(a: Fixed, b: Fixed) -> Fixed {
    saturate(a - b)
}

/// Saturating product, rounded down to a multiple of `1 / ONE`.
pub open spec fn fx_mul_spec(a: Fixed, b: Fixed) -> Fixed {
    saturate((a * b) / (ONE as int))
}

/// Saturating quotient by a positive divisor, rounded down.
pub open spec fn fx_div_spec(a: Fixed, b: Fixed) -> Fixed
    recommends
        b > 0,
{
    saturate((a * ONE) / (b as int))
}

/// The fixed-point value of a whole number, saturated.
pub open spec fn fx_from_int_spec(n: usize) -> Fixed {
    saturate(n * ONE)
}

/// The largest whole number not above `a`.
pub open spec fn fx_floor_spec(a: Fixed) -> i64 {
    (a as int / ONE as int) as i64
}

/// The whole number nearest to `a`, ties going up.
pub open spec fn fx_round_spec(a: Fixed) -> i64 {
    ((a + HALF) / (ONE as int)) as i64
}

/// The smaller of two numbers.
pub open spec fn fx_min_spec(a: Fixed, b: Fixed) -> Fixed {
    if a <= b { a } else { b }
}

/// The larger of two numbers.
pub open spec fn fx_max_spec(a: Fixed, b: Fixed) -> Fixed {
    if a >= b { a } else { b }
}

/// Exact floor division of a 128-bit integer by a positive divisor.
pub fn floor_div(n: i128, d: i128) -> (q: i128)
    requires
        d > 0,
        n > i128::MIN,
    ensures
        q == (n as int) / (d as int),
{
    if n >= 0 {
        n / d
    } else {
        let m: i128 = -n - 1;
        let q0: i128 = m / d;
        proof {
            lemma_fundamental_div_mod(m as int, d as int);
            let r0 = (m as int) % (d as int);
            assert((m as int) == (d as int) * (q0 as int) + r0);
            assert((n as int) == (-(q0 as int) - 1) * (d as int) + ((d as int) - 1 - r0))
                by (nonlinear_arith)
                requires
                    (m as int) == (d as int) * (q0 as int) + r0,
                    (n as int) == -(m as int) - 1,
            ;
            lemma_fundamental_div_mod_converse(
                n as int,
                d as int,
                -(q0 as int) - 1,
                (d as int) - 1 - r0,
            );
        }
        -q0 - 1
    }
}

/// The remainder of `a` by a positive `d`, in `[0, d)`.
pub fn floor_mod(a: i64, d: i64) -> (r: i64)
    requires
        d > 0,
    ensures
        r == (a as int) % (d as int),
        0 <= r < d,
{
    let q: i128 = floor_div(a as i128, d as i128);
    proof {
        lemma_fundamental_div_mod(a as int, d as int);
        lemma_mod_bound(a as int, d as int);
        assert((q as int) * (d as int) == (d as int) * (q as int)) by (nonlinear_arith);
    }
    let r: i128 = a as i128 - q * (d as i128);
    r as i64
}

/// Clamps a 128-bit integer into the representable range.
pub fn saturate_wide(v: i128) -> (r: Fixed)
    ensures
        r == saturate(v as int),
        FIXED_MIN <= r <= FIXED_MAX,
{
    if v < FIXED_MIN as i128 {
        FIXED_MIN
    } else if v > FIXED_MAX as i128 {
        FIXED_MAX
    } else {
        v as i64
    }
}

/// Saturating sum.
#[verifier::when_used_as_spec(fx_add_spec)]
pub fn fx_add(a: Fixed, b: Fixed) -> (r: Fixed)
    ensures
        r == fx_add_spec(a, b),
        FIXED_MIN <= r <= FIXED_MAX,
{
    saturate_wide(a as i128 + b as i128)
}

/// Saturating difference.
#[verifier::when_used_as_spec(fx_sub_spec)]
pub fn fx_sub(a: Fixed, b: Fixed) -> (r: Fixed)
    ensures
        r == fx_sub_spec(a, b),
        FIXED_MIN <= r <= FIXED_MAX,
{
    saturate_wide(a as i128 - b as i128)
}

/// Saturating product, rounded down.
#[verifier::when_used_as_spec(fx_mul_spec)]
pub fn fx_mul(a: Fixed, b: Fixed) -> (r: Fixed)
    ensures
        r == fx_mul_spec(a, b),
        FIXED_MIN <= r <= FIXED_MAX,
{
    proof {
        lemma_product_fits(a as int, b as int);
    }
    let p: i128 = (a as i128) * (b as i128);
    saturate_wide(floor_div(p, ONE as i128))
}

/// Saturating quotient by a positive divisor, rounded down.
#[verifier::when_used_as_spec(fx_div_spec)]
pub fn fx_div(a: Fixed, b: Fixed) -> (r: Fixed)
    requires
        b > 0,
    ensures
        r == fx_div_spec(a, b),
        FIXED_MIN <= r <= FIXED_MAX,
{
    let p: i128 = (a as i128) * 65536;
    assert(p == a * ONE);
    saturate_wide(floor_div(p, b as i128))
}

/// The fixed-point value of a whole number, saturated.
#[verifier::when_used_as_spec(fx_from_int_spec)]
pub fn fx_from_int(n: usize) -> (r: Fixed)
    ensures
        r == fx_from_int_spec(n),
        0 <= r <= FIXED_MAX,
{
    let wide: u64 = n as u64;
    if wide >= 0x4000_0000_0000u64 {
        FIXED_MAX
    } else {
        (wide as i64) * ONE
    }
}

/// The largest whole number not above `a`.
#[verifier::when_used_as_spec(fx_floor_spec)]
pub fn fx_floor(a: Fixed) -> (r: i64)
    ensures
        r == fx_floor_spec(a),
        r as int == a as int / ONE as int,
{
    floor_div(a as i128, ONE as i128) as i64
}

/// The whole number nearest to `a`, ties going up.
#[verifier::when_used_as_spec(fx_round_spec)]
pub fn fx_round(a: Fixed) -> (r: i64)
    ensures
        r == fx_round_spec(a),
        r as int == (a + HALF) / (ONE as int),
{
    floor_div(a as i128 + HALF as i128, ONE as i128) as i64
}

/// The smaller of two numbers.
#[verifier::when_used_as_spec(fx_min_spec)]
pub fn fx_min(a: Fixed, b: Fixed) -> (r: Fixed)
    ensures
        r == fx_min_spec(a, b),
{
    if a <= b { a } else { b }
}

/// The larger of two numbers.
#[verifier::when_used_as_spec(fx_max_spec)]
pub fn fx_max(a: Fixed, b: Fixed) -> (r: Fixed)
    ensures
        r == fx_max_spec(a, b),
{
    if a >= b { a } else { b }
}

/// The product of two 64-bit integers fits in 128 bits with room to spare.
pub proof fn lemma_product_fits(a: int, b: int)
    by (nonlinear_arith)
    requires
        -0x8000_0000_0000_0000 <= a <= 0x8000_0000_0000_0000,
        -0x8000_0000_0000_0000 <= b <= 0x8000_0000_0000_0000,
    ensures
        -0x4000_0000_0000_0000_0000_0000_0000_0000 <= a * b
            <= 0x4000_0000_0000_0000_0000_0000_0000_0000,
{
}

} // verus!
