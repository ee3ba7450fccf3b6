//! Fractional powers by integer fifth roots: `x^(6/5)` for the brightness
//! fade and `x^(3/5)` for the spawn density.

use vstd::prelude::*;
use crate::fixed::{Fixed, ONE};

verus! {

/// The fifth power of `r`.
pub open spec fn pow5(r: int) -> int {
    ((r * r) * (r * r)) * r
}

/// The integer fifth root: the `r >= 0` with `r^5 <= n < (r + 1)^5`.
pub open spec fn fifth_root(n: int) -> int {
    choose|r: int| 0 <= r && #[trigger] pow5(r) <= n && n < pow5(r + 1)
}

/// Largest argument of the executable fifth root, exclusive: `2^125`.
pub const ROOT_LIMIT: u128 = 0x2000_0000_0000_0000_0000_0000_0000_0000;

/// `x^(6/5)` for `x` in `[0, 1]`, arguments outside being clamped to that
/// interval: the integer fifth root of `x^6` taken at full precision.
pub open spec fn pow_six_fifths_spec(x: Fixed) -> Fixed {
    let a: int = if x < 0 { 0 } else if x > ONE { ONE as int } else { x as int };
    fifth_root((((a * a) * a) * ((a * a) * a)) / (ONE as int)) as i64
}

/// Largest image height that enters the density scale unclamped: `2^20`.
pub const HEIGHT_LIMIT: usize = 0x10_0000;

/// `(h / 64)^(3/5)` in fixed point, `h` being clamped to `HEIGHT_LIMIT`:
/// the integer fifth root of `h^3 * ONE^5 / 64^3`.
pub open spec fn density_scale_spec(h: usize) -> Fixed {
    let a: int = if h > HEIGHT_LIMIT { HEIGHT_LIMIT as int } else { h as int };
    fifth_root(((a * a) * a) * 0x4000_0000_0000_0000) as i64
}

/// The fifth power is monotone on the natural numbers.
pub proof fn lemma_pow5_monotone(a: int, b: int)
    requires
        0 <= a <= b,
    ensures
        0 <= pow5(a) <= pow5(b),
{
    let a2 = a * a;
    let b2 = b * b;
    assert(0 <= a2 <= b2) by (nonlinear_arith)
        requires
            0 <= a <= b,
            a2 == a * a,
            b2 == b * b,
    ;
    let a4 = a2 * a2;
    let b4 = b2 * b2;
    assert(0 <= a4 <= b4) by (nonlinear_arith)
        requires
            0 <= a2 <= b2,
            a4 == a2 * a2,
            b4 == b2 * b2,
    ;
    assert(0 <= a4 * a <= b4 * b) by (nonlinear_arith)
        requires
            0 <= a4 <= b4,
            0 <= a <= b,
    ;
}

/// The fifth power is strictly monotone on the natural numbers.
pub proof fn lemma_pow5_strict(a: int, b: int)
    requires
        0 <= a < b,
    ensures
        pow5(a) < pow5(b),
{
    lemma_pow5_monotone(a + 1, b);
    let a2 = a * a;
    let c = a + 1;
    let c2 = c * c;
    assert(0 <= a2 < c2) by (nonlinear_arith)
        requires
            0 <= a,
            c == a + 1,
            a2 == a * a,
            c2 == c * c,
    ;
    let a4 = a2 * a2;
    let c4 = c2 * c2;
    assert(0 <= a4 < c4) by (nonlinear_arith)
        requires
            0 <= a2 < c2,
            a4 == a2 * a2,
            c4 == c2 * c2,
    ;
    assert(a4 * a < c4 * c) by (nonlinear_arith)
        requires
            0 <= a4 < c4,
            0 <= a < c,
    ;
}

/// The fifth powers of 0, `2^16` and `2^25`.
pub proof fn lemma_pow5_landmarks()
    ensures
        pow5(0) == 0,
        pow5(0x1_0000) == 0x1_0000_0000_0000_0000_0000,
        pow5(0x200_0000) == 0x2000_0000_0000_0000_0000_0000_0000_0000,
{
    let a: int = 0x1_0000;
    let a2 = a * a;
    assert(a2 == 0x1_0000_0000) by (nonlinear_arith)
        requires
            a == 0x1_0000,
            a2 == a * a,
    ;
    let a4 = a2 * a2;
    assert(a4 == 0x1_0000_0000_0000_0000) by (nonlinear_arith)
        requires
            a2 == 0x1_0000_0000,
            a4 == a2 * a2,
    ;
    assert(a4 * a == 0x1_0000_0000_0000_0000_0000) by (nonlinear_arith)
        requires
            a4 == 0x1_0000_0000_0000_0000,
            a == 0x1_0000,
    ;
    let b: int = 0x200_0000;
    let b2 = b * b;
    assert(b2 == 0x4_0000_0000_0000) by (nonlinear_arith)
        requires
            b == 0x200_0000,
            b2 == b * b,
    ;
    let b4 = b2 * b2;
    assert(b4 == 0x10_0000_0000_0000_0000_0000_0000) by (nonlinear_arith)
        requires
            b2 == 0x4_0000_0000_0000,
            b4 == b2 * b2,
    ;
    assert(b4 * b == 0x2000_0000_0000_0000_0000_0000_0000_0000) by (nonlinear_arith)
        requires
            b4 == 0x10_0000_0000_0000_0000_0000_0000,
            b == 0x200_0000,
    ;
}

/// A number caught between two consecutive fifth powers has that root.
pub proof fn lemma_fifth_root_unique(n: int, r: int)
    requires
        0 <= r,
        pow5(r) <= n < pow5(r + 1),
    ensures
        fifth_root(n) == r,
{
    let c = fifth_root(n);
    assert(0 <= c && pow5(c) <= n < pow5(c + 1));
    if c < r {
        lemma_pow5_monotone(c + 1, r);
    }
    if r < c {
        lemma_pow5_monotone(r + 1, c);
    }
}

/// The fifth power of a number up to `2^25`.
fn pow5_bounded(r: u128) -> (p: u128)
    requires
        r <= 0x200_0000,
    ensures
        p == pow5(r as int),
        p <= ROOT_LIMIT,
{
    proof {
        lemma_pow5_monotone(r as int, 0x200_0000);
        lemma_pow5_landmarks();
        assert(0 <= (r as int) * (r as int) <= 0x4_0000_0000_0000) by (nonlinear_arith)
            requires
                0 <= r <= 0x200_0000,
        ;
        let r2 = (r as int) * (r as int);
        assert(0 <= r2 * r2 <= 0x10_0000_0000_0000_0000_0000_0000) by (nonlinear_arith)
            requires
                0 <= r2 <= 0x4_0000_0000_0000,
        ;
    }
    let r2: u128 = r * r;
    let r4: u128 = r2 * r2;
    r4 * r
}

/// The integer fifth root of `n`, by bisection.
pub fn fifth_root_of(n: u128) -> (r: u128)
    requires
        n < ROOT_LIMIT,
    ensures
        r == fifth_root(n as int),
        pow5(r as int) <= n < pow5(r + 1),
        r < 0x200_0000,
{
    let mut lo: u128 = 0;
    let mut hi: u128 = 0x200_0000;
    proof {
        lemma_pow5_landmarks();
    }
    while hi - lo > 1
        invariant
            lo < hi <= 0x200_0000,
            pow5(lo as int) <= n < pow5(hi as int),
        decreases hi - lo,
    {
        let mid: u128 = lo + (hi - lo) / 2;
        let m5: u128 = pow5_bounded(mid);
        if m5 <= n {
            lo = mid;
        } else {
            hi = mid;
        }
    }
    proof {
        lemma_fifth_root_unique(n as int, lo as int);
    }
    lo
}

/// `x^(6/5)` for `x` in `[0, 1]`, rounded down; arguments outside are clamped.
#[verifier::when_used_as_spec(pow_six_fifths_spec)]
pub fn pow_six_fifths(x: Fixed) -> (r: Fixed)
    ensures
        r == pow_six_fifths_spec(x),
        0 <= r <= ONE,
{
    let a: u128 = if x < 0 { 0 } else if x > ONE { ONE as u128 } else { x as u128 };
    proof {
        assert(0 <= (a as int) * (a as int) <= 0x1_0000_0000) by (nonlinear_arith)
            requires
                0 <= a <= 0x1_0000,
        ;
        let a2 = (a as int) * (a as int);
        assert(0 <= a2 * (a as int) <= 0x1_0000_0000_0000) by (nonlinear_arith)
            requires
                0 <= a2 <= 0x1_0000_0000,
                0 <= a <= 0x1_0000,
        ;
        let a3 = a2 * (a as int);
        assert(0 <= a3 * a3 <= 0x1_0000_0000_0000_0000_0000_0000) by (nonlinear_arith)
            requires
                0 <= a3 <= 0x1_0000_0000_0000,
        ;
    }
    let a3: u128 = (a * a) * a;
    let n: u128 = (a3 * a3) / 65536;
    let r: u128 = fifth_root_of(n);
    proof {
        assert(n <= 0x1_0000_0000_0000_0000_0000);
        lemma_pow5_landmarks();
        if r > 0x1_0000 {
            lemma_pow5_strict(0x1_0000, r as int);
        }
    }
    r as i64
}

/// `(h / 64)^(3/5)`, rounded down: the factor that evens out the spawn
/// density across image heights.
#[verifier::when_used_as_spec(density_scale_spec)]
pub fn density_scale(h: usize) -> (r: Fixed)
    ensures
        r == density_scale_spec(h),
        0 <= r < 0x200_0000,
{
    let a: u128 = if h > HEIGHT_LIMIT { HEIGHT_LIMIT as u128 } else { h as u128 };
    proof {
        assert(0 <= (a as int) * (a as int) <= 0x100_0000_0000) by (nonlinear_arith)
            requires
                0 <= a <= 0x10_0000,
        ;
        let a2 = (a as int) * (a as int);
        assert(0 <= a2 * (a as int) <= 0x1000_0000_0000_0000) by (nonlinear_arith)
            requires
                0 <= a2 <= 0x100_0000_0000,
                0 <= a <= 0x10_0000,
        ;
    }
    let a3: u128 = (a * a) * a;
    let n: u128 = a3 * 0x4000_0000_0000_0000;
    let r: u128 = fifth_root_of(n);
    r as i64
}

} // verus!
