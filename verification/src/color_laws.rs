//! The round trip through HSV: converting an RGB colour to HSV and back
//! gives the colour it started from, exactly.

use vstd::prelude::*;
use vstd::arithmetic::div_mod::lemma_fundamental_div_mod;
use crate::color::{
    SIX, channel_byte, chroma, hsv_to_rgb_spec, hue_numerator, max3, min3, rgb_to_hsv_spec,
    secondary,
};
use crate::fixed::{Fixed, fx_add_spec, fx_mul_spec, fx_sub_spec};

verus! {

/// An intensity within half a step of `val / 255` becomes the byte `val`.
proof fn lemma_channel_byte(p: Fixed, val: int)
    requires
        0 <= val <= 255,
        -32768 <= 255 * p - 65536 * val < 32768,
    ensures
        channel_byte(p) == val,
{
    assert((p * 16711680) / 65536 == 255 * p);
}

/// From bounds on a product to bounds on its quotient by 65536.
proof fn lemma_quotient_bounds(c: int, p: int, d: int)
    requires
        c == p / 65536,
        255 * p <= 65536 * 65536 * d,
        255 * p >= 65536 * 65536 * d - 65536 * 508,
    ensures
        65536 * d - 763 <= 255 * c <= 65536 * d,
{
    let rest = p % 65536;
    assert(p == 65536 * c + rest && 0 <= rest < 65536);
    assert(255 * p == 16711680 * c + 255 * rest);
    assert(16711680 * c <= 4294967296 * d);
    assert(16711680 * c >= 4294967296 * d - 33292288 - 16711680);
}

/// The product of value and saturation of a converted colour.
proof fn lemma_chroma_product(hi: int, d: int, v: int, s: int, p: int)
    requires
        0 < hi <= 255,
        0 <= d <= hi,
        65536 * hi - 254 <= 255 * v <= 65536 * hi,
        65536 * d - (hi - 1) <= hi * s <= 65536 * d,
        0 <= s,
        0 <= v,
        p == v * s,
    ensures
        0 <= p,
        255 * p <= 65536 * 65536 * d,
        255 * p >= 65536 * 65536 * d - 65536 * 508,
{
    assert(0 <= p) by (nonlinear_arith)
        requires
            0 <= v,
            0 <= s,
            p == v * s,
    ;
    let q = (255 * v) * (hi * s);
    assert(q == 255 * hi * p) by (nonlinear_arith)
        requires
            q == (255 * v) * (hi * s),
            p == v * s,
    ;
    assert(q <= (65536 * hi) * (65536 * d)) by (nonlinear_arith)
        requires
            q == (255 * v) * (hi * s),
            0 <= 255 * v <= 65536 * hi,
            0 <= hi * s <= 65536 * d,
    ;
    assert(255 * p <= 65536 * 65536 * d) by (nonlinear_arith)
        requires
            255 * hi * p <= (65536 * hi) * (65536 * d),
            hi > 0,
    ;
    if d > 0 {
        assert(q >= (65536 * hi - 254) * (65536 * d - (hi - 1))) by (nonlinear_arith)
            requires
                q == (255 * v) * (hi * s),
                255 * v >= 65536 * hi - 254,
                hi * s >= 65536 * d - (hi - 1),
                65536 * hi - 254 >= 0,
                65536 * d - (hi - 1) >= 0,
        ;
        assert((65536 * hi - 254) * (65536 * d - (hi - 1)) >= 65536 * 65536 * hi * d - 65536 * hi
            * 508) by (nonlinear_arith)
            requires
                0 < d <= hi,
                hi <= 255,
        ;
        assert(255 * p >= 65536 * 65536 * d - 65536 * 508) by (nonlinear_arith)
            requires
                255 * hi * p >= 65536 * 65536 * hi * d - 65536 * hi * 508,
                hi > 0,
        ;
    }
}

/// The secondary component is within four steps of the spread times the ramp over 255.
proof fn lemma_secondary_bounds(c: int, ramp: int, d: int, f: int, x: int)
    requires
        0 <= ramp <= 65536,
        0 <= c,
        0 <= d <= 255,
        65536 * d - 763 <= 255 * c <= 65536 * d,
        f == d * ramp,
        x == (c * ramp) / 65536,
    ensures
        0 <= x <= 65536,
        f - 1018 < 255 * x <= f,
        0 <= f <= 65536 * d,
{
    assert(0 <= f <= 65536 * d) by (nonlinear_arith)
        requires
            f == d * ramp,
            0 <= ramp <= 65536,
            0 <= d,
    ;
    let e = c * ramp;
    assert(0 <= e) by (nonlinear_arith)
        requires
            0 <= c,
            0 <= ramp,
            e == c * ramp,
    ;
    assert(255 * e <= 65536 * f && 255 * e >= 65536 * f - 763 * 65536) by (nonlinear_arith)
        requires
            e == c * ramp,
            f == d * ramp,
            0 <= ramp <= 65536,
            65536 * d - 763 <= 255 * c <= 65536 * d,
    ;
    lemma_quotient_tail(x, e, f);
}

/// From bounds on a product to bounds on its quotient by 65536.
proof fn lemma_quotient_tail(x: int, e: int, f: int)
    requires
        x == e / 65536,
        0 <= e,
        255 * e <= 65536 * f,
        255 * e >= 65536 * f - 763 * 65536,
    ensures
        0 <= x,
        f - 1018 < 255 * x <= f,
{
}

/// Which channel holds the maximum, which the minimum and how far the
/// third lies between them, by the sector that the rounded hue falls in.
/// `h6` is six times the hue and `dd` its product with the spread.
proof fn lemma_sector_assignment(r: int, g: int, b: int, h6: int, dd: int)
    requires
        0 <= r <= 255,
        0 <= g <= 255,
        0 <= b <= 255,
        max3(r, g, b) > min3(r, g, b),
        0 <= h6,
        dd == (max3(r, g, b) - min3(r, g, b)) * h6,
        65536 * hue_numerator(r, g, b) - 6 * (max3(r, g, b) - min3(r, g, b)) < dd <= 65536
            * hue_numerator(r, g, b),
    ensures
        ({
            let hi = max3(r, g, b);
            let lo = min3(r, g, b);
            let d = hi - lo;
            &&& h6 < 393216
            &&& h6 < 65536 ==> r == hi && b == lo && -6 * d <= dd - 65536 * (g - lo) <= 6 * d
            &&& 65536 <= h6 < 131072 ==> g == hi && b == lo && -6 * d <= (131072 * d - dd) - 65536
                * (r - lo) <= 6 * d
            &&& 131072 <= h6 < 196608 ==> g == hi && r == lo && -6 * d <= (dd - 131072 * d) - 65536
                * (b - lo) <= 6 * d
            &&& 196608 <= h6 < 262144 ==> b == hi && r == lo && -6 * d <= (262144 * d - dd) - 65536
                * (g - lo) <= 6 * d
            &&& 262144 <= h6 < 327680 ==> b == hi && g == lo && -6 * d <= (dd - 262144 * d) - 65536
                * (r - lo) <= 6 * d
            &&& 327680 <= h6 ==> r == hi && g == lo && -6 * d <= (393216 * d - dd) - 65536 * (b
                - lo) <= 6 * d
        }),
{
    let d = max3(r, g, b) - min3(r, g, b);
    assert((h6 < 65536 <==> dd < d * 65536) && (h6 < 131072 <==> dd < d * 131072) && (h6 < 196608
        <==> dd < d * 196608) && (h6 < 262144 <==> dd < d * 262144) && (h6 < 327680 <==> dd < d
        * 327680) && (h6 < 393216 <==> dd < d * 393216)) by (nonlinear_arith)
        requires
            dd == d * h6,
            d > 0,
    ;
}

/// The spread times the ramp of the hue, by sector.
proof fn lemma_ramp_product(d: int, h6: int, dd: int, ramp: int, f: int)
    requires
        0 <= h6 < 393216,
        dd == d * h6,
        ramp == (if h6 % 131072 >= 65536 { 131072 - h6 % 131072 } else { h6 % 131072 }),
        f == d * ramp,
    ensures
        0 <= ramp <= 65536,
        h6 < 65536 ==> f == dd,
        65536 <= h6 < 131072 ==> f == 131072 * d - dd,
        131072 <= h6 < 196608 ==> f == dd - 131072 * d,
        196608 <= h6 < 262144 ==> f == 262144 * d - dd,
        262144 <= h6 < 327680 ==> f == dd - 262144 * d,
        327680 <= h6 ==> f == 393216 * d - dd,
{
    if h6 < 65536 {
        assert(ramp == h6);
    } else if h6 < 131072 {
        assert(ramp == 131072 - h6);
        assert(d * (131072 - h6) == 131072 * d - d * h6) by (nonlinear_arith);
    } else if h6 < 196608 {
        assert(ramp == h6 - 131072);
        assert(d * (h6 - 131072) == d * h6 - 131072 * d) by (nonlinear_arith);
    } else if h6 < 262144 {
        assert(ramp == 262144 - h6);
        assert(d * (262144 - h6) == 262144 * d - d * h6) by (nonlinear_arith);
    } else if h6 < 327680 {
        assert(ramp == h6 - 262144);
        assert(d * (h6 - 262144) == d * h6 - 262144 * d) by (nonlinear_arith);
    } else {
        assert(ramp == 393216 - h6);
        assert(d * (393216 - h6) == 393216 * d - d * h6) by (nonlinear_arith);
    }
}

/// The byte of the largest channel.
spec fn top_byte(h: Fixed, s: Fixed, v: Fixed) -> u8 {
    channel_byte(fx_add_spec(chroma(s, v), fx_sub_spec(v, chroma(s, v))))
}

/// The byte of the channel between the largest and the smallest.
spec fn mid_byte(h: Fixed, s: Fixed, v: Fixed) -> u8 {
    channel_byte(fx_add_spec(secondary(h, s, v), fx_sub_spec(v, chroma(s, v))))
}

/// The byte of the smallest channel.
spec fn low_byte(h: Fixed, s: Fixed, v: Fixed) -> u8 {
    channel_byte(fx_add_spec(0, fx_sub_spec(v, chroma(s, v))))
}

/// The three bytes of a converted colour, and where its hue lies: the top
/// byte is the largest channel, the low byte the smallest, and the middle
/// byte the channel that the hue sector assigns to it.
proof fn lemma_bytes_of_converted(r: u8, g: u8, b: u8)
    ensures
        ({
            let hsv = rgb_to_hsv_spec(r, g, b);
            let hi = max3(r as int, g as int, b as int);
            let lo = min3(r as int, g as int, b as int);
            let h6 = 6 * hsv.h;
            let mid = mid_byte(hsv.h, hsv.s, hsv.v);
            &&& top_byte(hsv.h, hsv.s, hsv.v) == hi
            &&& low_byte(hsv.h, hsv.s, hsv.v) == lo
            &&& 0 <= h6 < 393216
            &&& hi == lo ==> h6 == 0 && mid == lo
            &&& hi > lo ==> {
                &&& h6 < 65536 ==> r == hi && b == lo && mid == g
                &&& 65536 <= h6 < 131072 ==> g == hi && b == lo && mid == r
                &&& 131072 <= h6 < 196608 ==> g == hi && r == lo && mid == b
                &&& 196608 <= h6 < 262144 ==> b == hi && r == lo && mid == g
                &&& 262144 <= h6 < 327680 ==> b == hi && g == lo && mid == r
                &&& 327680 <= h6 ==> r == hi && g == lo && mid == b
            }
        }),
{
    let hi = max3(r as int, g as int, b as int);
    let lo = min3(r as int, g as int, b as int);
    let d = hi - lo;
    let hsv = rgb_to_hsv_spec(r, g, b);
    let h = hsv.h;
    let s = hsv.s;
    let v = hsv.v;
    assert(65536 * hi - 254 <= 255 * v <= 65536 * hi);
    if hi == 0 {
        assert(s == 0 && v == 0 && h == 0);
        assert(0int * 0int == 0);
        assert(chroma(s, v) == 0);
        assert(secondary(h, s, v) == 0);
        lemma_channel_byte(0, 0);
    } else {
        lemma_fundamental_div_mod(d * 65536, hi);
        assert(hi * s == d * 65536 - (d * 65536) % hi);
        assert(0 <= s) by (nonlinear_arith)
            requires
                s == (d * 65536) / hi,
                hi > 0,
                d >= 0,
        ;
        let p = v * s;
        lemma_chroma_product(hi, d, v as int, s as int, p);
        let c = p / 65536;
        lemma_quotient_bounds(c, p, d);
        assert(chroma(s, v) == c);
        let mm = v - c;
        assert(fx_sub_spec(v, chroma(s, v)) == mm);
        assert(fx_add_spec(chroma(s, v), mm as i64) == v);
        assert(fx_add_spec(0, mm as i64) == mm);
        lemma_channel_byte(v, hi);
        lemma_channel_byte(mm as i64, lo);
        if d == 0 {
            assert(h == 0);
            assert(c == 0);
            assert(0int * 0int == 0);
            assert(secondary(h, s, v) == 0);
        } else {
            let n = hue_numerator(r as int, g as int, b as int);
            lemma_fundamental_div_mod(n * 65536, 6 * d);
            let h6 = 6 * h;
            let dd = d * h6;
            assert(dd == (6 * d) * h) by (nonlinear_arith)
                requires
                    dd == d * h6,
                    h6 == 6 * h,
            ;
            assert(0 <= h) by (nonlinear_arith)
                requires
                    h == (n * 65536) / (6 * d),
                    d > 0,
                    n >= 0,
            ;
            lemma_sector_assignment(r as int, g as int, b as int, h6, dd);
            let k = h6 % 131072;
            let ramp = if k >= 65536 { 131072 - k } else { k };
            let f = d * ramp;
            lemma_ramp_product(d, h6, dd, ramp, f);
            let x = (c * ramp) / 65536;
            lemma_secondary_bounds(c, ramp, d, f, x);
            assert((h * 393216) / 65536 == h6);
            assert(fx_mul_spec(h, SIX) == h6);
            assert(fx_mul_spec(c as i64, ramp as i64) == x);
            assert(secondary(h, s, v) == x);
            assert(fx_add_spec(x as i64, mm as i64) == x + mm);
            let val: int = if h6 < 65536 {
                g as int
            } else if h6 < 131072 {
                r as int
            } else if h6 < 196608 {
                b as int
            } else if h6 < 262144 {
                g as int
            } else if h6 < 327680 {
                r as int
            } else {
                b as int
            };
            assert(-6 * d <= f - 65536 * (val - lo) <= 6 * d);
            lemma_channel_byte((x + mm) as i64, val);
        }
    }
}

/// Converting an RGB colour to HSV and back gives the same colour.
pub proof fn lemma_color_round_trip(r: u8, g: u8, b: u8)
    ensures
        hsv_to_rgb_spec(rgb_to_hsv_spec(r, g, b).h, rgb_to_hsv_spec(r, g, b).s, rgb_to_hsv_spec(r, g, b).v)
            == seq![r, g, b],
{
    lemma_bytes_of_converted(r, g, b);
    let hsv = rgb_to_hsv_spec(r, g, b);
    assert(hsv_to_rgb_spec(hsv.h, hsv.s, hsv.v) =~= seq![r, g, b]);
}

} // verus!
