//! Sine and cosine of fixed-point angles in radians, by the rational
//! approximation `sin x ≈ 16 x (π - x) / (5 π² - 4 x (π - x))` on `[0, π]`,
//! extended to all angles by periodicity and odd symmetry.

use vstd::prelude::*;
use crate::fixed::{Fixed, ONE, floor_mod, fx_add, fx_add_spec};

verus! {

/// π in fixed point.
pub const PI: i64 = 205887;

/// 2π in fixed point, exactly twice `PI` so that the two half periods match.
pub const TWO_PI: i64 = 411774;

/// π/2 in fixed point.
pub const HALF_PI: i64 = 102944;

/// The approximation on one half period: `x` in `[0, PI]`.
pub open spec fn arch(x: int) -> int {
    let p = x * (PI - x);
    (16 * p * ONE) / (5 * PI * PI - 4 * p)
}

/// The sine of `x` radians.
pub open spec fn sine_spec(x: Fixed) -> Fixed {
    let u = (x as int) % (TWO_PI as int);
    if u < PI {
        arch(u) as i64
    } else {
        (-arch(u - PI)) as i64
    }
}

/// The cosine of `x` radians: the sine a quarter period later.
pub open spec fn cosine_spec(x: Fixed) -> Fixed {
    sine_spec(fx_add_spec(x, HALF_PI))
}

/// On its half period the approximation stays between 0 and 1.
pub proof fn lemma_arch_range(x: int)
    requires
        0 <= x <= PI,
    ensures
        0 <= x * (PI - x) <= 10597364192,
        5 * PI * PI - 4 * (x * (PI - x)) > 0,
        0 <= arch(x) <= ONE,
{
    let p = x * (PI - x);
    assert(0 <= p && 4 * p <= PI * PI) by (nonlinear_arith)
        requires
            0 <= x <= PI,
            p == x * (PI - x),
    ;
    let d = 5 * PI * PI - 4 * p;
    assert(PI * PI == 42389456769);
    assert(16 * p <= d);
    assert(16 * p * ONE <= ONE * d);
    assert((16 * p * ONE) / d <= ONE && 0 <= (16 * p * ONE) / d) by (nonlinear_arith)
        requires
            d > 0,
            0 <= 16 * p * ONE <= ONE * d,
    ;
}

/// The sine repeats after a full turn.
pub proof fn lemma_sine_is_periodic(x: Fixed)
    requires
        x + TWO_PI <= i64::MAX,
    ensures
        sine_spec((x + TWO_PI) as i64) == sine_spec(x),
{
    assert((x + TWO_PI) % (TWO_PI as int) == (x as int) % (TWO_PI as int));
}

/// The sine is an odd function.
pub proof fn lemma_sine_is_odd(x: Fixed)
    requires
        x > i64::MIN,
    ensures
        sine_spec((-x) as i64) == -sine_spec(x),
{
    let u = (x as int) % (TWO_PI as int);
    let v = (-x) % (TWO_PI as int);
    assert(v == if u == 0 { 0 } else { TWO_PI - u });
    lemma_arch_is_symmetric(if u < PI { u } else { u - PI });
    if u < PI {
        lemma_arch_range(u);
    } else {
        lemma_arch_range(u - PI);
    }
    assert(arch(0) == 0);
}

/// On its half period the approximation is symmetric about the middle.
pub proof fn lemma_arch_is_symmetric(x: int)
    ensures
        arch(PI - x) == arch(x),
{
    assert((PI - x) * (PI - (PI - x)) == x * (PI - x)) by (nonlinear_arith);
}

/// The sine of `x` radians.
#[verifier::when_used_as_spec(sine_spec)]
pub fn sine(x: Fixed) -> (r: Fixed)
    ensures
        r == sine_spec(x),
        -ONE <= r <= ONE,
{
    let u: i64 = floor_mod(x, TWO_PI);
    let neg: bool = u >= PI;
    let v: i64 = if neg { u - PI } else { u };
    proof {
        lemma_arch_range(v as int);
    }
    let p: i64 = v * (PI - v);
    let num: i64 = 16 * p * ONE;
    let den: i64 = 5 * PI * PI - 4 * p;
    let a: i64 = num / den;
    if neg { -a } else { a }
}

/// The cosine of `x` radians.
#[verifier::when_used_as_spec(cosine_spec)]
pub fn cosine(x: Fixed) -> (r: Fixed)
    ensures
        r == cosine_spec(x),
        -ONE <= r <= ONE,
{
    sine(fx_add(x, HALF_PI))
}

} // verus!
