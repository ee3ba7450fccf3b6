//! The colour model: conversion between 8-bit RGB and fixed-point HSV, and
//! the fire-temperature shift that reddens and dims a colour.

use vstd::prelude::*;
use crate::fixed::{
    Fixed, HALF, ONE, floor_mod, fx_add, fx_add_spec, fx_max, fx_max_spec, fx_min, fx_min_spec, fx_mul,
    fx_mul_spec, fx_round, fx_round_spec, fx_sub, fx_sub_spec,
};

verus! {

/// A colour as hue, saturation and value, each a fixed-point number. Hue is
/// a fraction of the full circle; a converted RGB colour has all three in `[0, 1]`.
#[derive(Clone, Copy, Debug, PartialEq, Eq, Structural)]
pub struct Hsv {
    pub h: Fixed,
    pub s: Fixed,
    pub v: Fixed,
}

/// 6 in fixed point: the number of hue sectors.
pub const SIX: i64 = 393216;

/// 2 in fixed point.
pub const TWO: i64 = 131072;

/// 255 in fixed point.
pub const CHANNEL_MAX: i64 = 16711680;

/// Weight of the height factor in the temperature shift: 0.6.
pub const HEIGHT_WEIGHT: i64 = 39322;

/// Hue below which a colour counts as red: 0.1.
pub const RED_BELOW: i64 = 6554;

/// Hue above which a colour counts as red: 0.9.
pub const RED_ABOVE: i64 = 58982;

/// Hue below which a colour counts as orange: 0.2.
pub const ORANGE_BELOW: i64 = 13107;

/// Hue shift per unit of temperature shift for a red base: 0.05.
pub const RED_TIER: i64 = 3277;

/// Hue shift per unit of temperature shift for an orange base: 0.15.
pub const ORANGE_TIER: i64 = 9830;

/// Hue shift per unit of temperature shift for any other base: 0.1.
pub const OTHER_TIER: i64 = 6554;

/// Saturation gained per unit of temperature shift: 0.1.
pub const SATURATION_GAIN: i64 = 6554;

/// Brightness lost per unit of temperature shift: 0.4.
pub const VALUE_LOSS: i64 = 26214;

/// Smallest brightness factor: 0.2.
pub const VALUE_FLOOR: i64 = 13107;

/// The largest of three numbers.
pub open spec fn max3(a: int, b: int, c: int) -> int {
    if a >= b && a >= c { a } else if b >= c { b } else { c }
}

/// The smallest of three numbers.
pub open spec fn min3(a: int, b: int, c: int) -> int {
    if a <= b && a <= c { a } else if b <= c { b } else { c }
}

/// The hue of an RGB colour as a numerator over six times the channel
/// spread: the position on the colour circle counted in sixths, wrapped
/// into `[0, 6)`. Red takes precedence over green, green over blue, where
/// several channels share the maximum.
pub open spec fn hue_numerator(r: int, g: int, b: int) -> int {
    let mx = max3(r, g, b);
    let delta = mx - min3(r, g, b);
    if mx == r {
        if g >= b { g - b } else { g - b + 6 * delta }
    } else if mx == g {
        b - r + 2 * delta
    } else {
        r - g + 4 * delta
    }
}

/// The HSV form of an RGB colour. Hue is `hue_numerator / (6 * spread)`,
/// zero for a grey; saturation is `spread / max`, zero for black; value is
/// `max / 255`; each rounded down to the fixed-point grid.
pub open spec fn rgb_to_hsv_spec(r: u8, g: u8, b: u8) -> Hsv {
    let mx = max3(r as int, g as int, b as int);
    let delta = mx - min3(r as int, g as int, b as int);
    Hsv {
        h: if delta == 0 {
            0
        } else {
            ((hue_numerator(r as int, g as int, b as int) * ONE) / (6 * delta)) as i64
        },
        s: if mx == 0 { 0 } else { ((delta * ONE) / mx) as i64 },
        v: ((mx * ONE) / 255) as i64,
    }
}

/// One output channel: the fixed-point intensity times 255, rounded to the
/// nearest whole number and clamped to a byte.
pub open spec fn channel_byte(p: Fixed) -> u8 {
    let scaled = fx_round_spec(fx_mul_spec(p, CHANNEL_MAX));
    if scaled < 0 {
        0
    } else if scaled > 255 {
        255
    } else {
        scaled as u8
    }
}

/// The chroma of a colour: value times saturation.
pub open spec fn chroma(s: Fixed, v: Fixed) -> Fixed {
    fx_mul_spec(v, s)
}

/// The second-largest component before the brightness offset: the chroma
/// scaled by `1 - |6h mod 2 - 1|`.
pub open spec fn secondary(h: Fixed, s: Fixed, v: Fixed) -> Fixed {
    let k = (fx_mul_spec(h, SIX) as int) % (TWO as int);
    let ramp = if k >= ONE { TWO - k } else { k };
    fx_mul_spec(chroma(s, v), ramp as i64)
}

/// The RGB form of an HSV colour. The six hue sectors of width 1/6
/// partition `[0, 1)`; a hue below zero falls in the first sector and a hue
/// of one or more in the last.
pub open spec fn hsv_to_rgb_spec(h: Fixed, s: Fixed, v: Fixed) -> Seq<u8> {
    let c = chroma(s, v);
    let x = secondary(h, s, v);
    let m = fx_sub_spec(v, c);
    let cm = channel_byte(fx_add_spec(c, m));
    let xm = channel_byte(fx_add_spec(x, m));
    let zm = channel_byte(fx_add_spec(0, m));
    if 6 * h < ONE {
        seq![cm, xm, zm]
    } else if 6 * h < 2 * ONE {
        seq![xm, cm, zm]
    } else if 6 * h < 3 * ONE {
        seq![zm, cm, xm]
    } else if 6 * h < 4 * ONE {
        seq![zm, xm, cm]
    } else if 6 * h < 5 * ONE {
        seq![xm, zm, cm]
    } else {
        seq![cm, zm, xm]
    }
}

/// The temperature shift of a particle: age factor plus 0.6 times height
/// factor, at most 1.
pub open spec fn temperature_shift(age_factor: Fixed, height_factor: Fixed) -> Fixed {
    fx_min_spec(fx_add_spec(age_factor, fx_mul_spec(height_factor, HEIGHT_WEIGHT)), ONE)
}

/// Hue shift per unit of temperature shift, by the base hue.
pub open spec fn hue_tier(h: Fixed) -> Fixed {
    if h < RED_BELOW || h > RED_ABOVE {
        RED_TIER
    } else if h < ORANGE_BELOW {
        ORANGE_TIER
    } else {
        OTHER_TIER
    }
}

/// A hue moved toward red, which is hue 0 and hue 1 alike, by `step`: a hue
/// below one half is lowered, but not past 0; a hue from one half on is
/// raised and wraps to 0 at 1.
pub open spec fn toward_red(h: Fixed, step: Fixed) -> Fixed {
    if h < HALF {
        ((fx_max_spec(fx_sub_spec(h, step), 0) as int) % (ONE as int)) as i64
    } else {
        ((fx_add_spec(h, step) as int) % (ONE as int)) as i64
    }
}

/// How far a hue of `[0, 1)` lies from red, the shorter way round the circle.
pub open spec fn red_distance(h: Fixed) -> int {
    if h < HALF {
        h as int
    } else {
        ONE - h
    }
}

/// The fire colour of a particle: the base hue moved toward red by its tier
/// times the shift, the saturation raised by 0.1 times the shift up to 1,
/// the value scaled by `max(0.2, 1 - 0.4 shift)`.
pub open spec fn fire_color_spec(base: Hsv, age_factor: Fixed, height_factor: Fixed) -> Hsv {
    let shift = temperature_shift(age_factor, height_factor);
    Hsv {
        h: toward_red(base.h, fx_mul_spec(shift, hue_tier(base.h))),
        s: fx_min_spec(fx_add_spec(base.s, fx_mul_spec(shift, SATURATION_GAIN)), ONE),
        v: fx_mul_spec(
            base.v,
            fx_max_spec(fx_sub_spec(ONE, fx_mul_spec(shift, VALUE_LOSS)), VALUE_FLOOR),
        ),
    }
}

/// The fire colour is never farther from red than the base colour, for age
/// and height factors that are not negative. The one exception is a hue
/// just below 1 that the shift carries past red: it ends less than the red
/// tier beyond it.
pub proof fn lemma_fire_hue_nears_red(base: Hsv, age_factor: Fixed, height_factor: Fixed)
    requires
        0 <= base.h < ONE,
        0 <= age_factor,
        0 <= height_factor,
    ensures
        ({
            let r = fire_color_spec(base, age_factor, height_factor);
            &&& 0 <= r.h < ONE
            &&& base.h < HALF ==> r.h <= base.h
            &&& red_distance(r.h) <= red_distance(base.h) || (base.h > RED_ABOVE && r.h < RED_TIER)
        }),
{
    let shift = temperature_shift(age_factor, height_factor);
    let tier = hue_tier(base.h);
    assert(0 <= (height_factor * HEIGHT_WEIGHT) / (ONE as int)) by (nonlinear_arith)
        requires
            0 <= height_factor,
    ;
    assert(0 <= shift <= ONE);
    assert(0 <= (shift * tier) / (ONE as int) <= tier) by (nonlinear_arith)
        requires
            0 <= shift <= ONE,
            0 < tier,
    ;
}


/// Converts an RGB colour to HSV. The hue lies in `[0, 1)` and is zero for a grey.
#[verifier::when_used_as_spec(rgb_to_hsv_spec)]
pub fn rgb_to_hsv(r: u8, g: u8, b: u8) -> (hsv: Hsv)
    ensures
        hsv == rgb_to_hsv_spec(r, g, b),
        0 <= hsv.h < ONE,
        0 <= hsv.s <= ONE,
        0 <= hsv.v <= ONE,
{
    let ri: i64 = r as i64;
    let gi: i64 = g as i64;
    let bi: i64 = b as i64;
    let mx: i64 = if ri >= gi && ri >= bi { ri } else if gi >= bi { gi } else { bi };
    let mn: i64 = if ri <= gi && ri <= bi { ri } else if gi <= bi { gi } else { bi };
    let delta: i64 = mx - mn;
    let h: i64 = if delta == 0 {
        0
    } else {
        let n: i64 = if mx == ri {
            if gi >= bi { gi - bi } else { gi - bi + 6 * delta }
        } else if mx == gi {
            bi - ri + 2 * delta
        } else {
            ri - gi + 4 * delta
        };
        assert(0 <= n < 6 * delta);
        assert((n * ONE) / (6 * delta) < ONE && 0 <= (n * ONE) / (6 * delta)) by (nonlinear_arith)
            requires
                0 <= n < 6 * delta,
        ;
        (n * ONE) / (6 * delta)
    };
    let s: i64 = if mx == 0 {
        0
    } else {
        assert(0 <= (delta * ONE) / (mx as int) <= ONE) by (nonlinear_arith)
            requires
                0 <= delta <= mx,
                mx > 0,
        ;
        (delta * ONE) / mx
    };
    let v: i64 = (mx * ONE) / 255;
    Hsv { h, s, v }
}

/// The byte of a fixed-point intensity: 255 times it, rounded and clamped.
#[verifier::when_used_as_spec(channel_byte)]
pub fn to_channel_byte(p: Fixed) -> (r: u8)
    ensures
        r == channel_byte(p),
{
    let scaled: i64 = fx_round(fx_mul(p, CHANNEL_MAX));
    if scaled < 0 {
        0
    } else if scaled > 255 {
        255
    } else {
        scaled as u8
    }
}

/// Converts an HSV colour to RGB.
pub fn hsv_to_rgb(h: Fixed, s: Fixed, v: Fixed) -> (rgb: [u8; 3])
    ensures
        rgb@ == hsv_to_rgb_spec(h, s, v),
{
    let c: i64 = fx_mul(v, s);
    let k: i64 = floor_mod(fx_mul(h, SIX), TWO);
    let ramp: i64 = if k >= ONE { TWO - k } else { k };
    let x: i64 = fx_mul(c, ramp);
    let m: i64 = fx_sub(v, c);
    let cm: u8 = to_channel_byte(fx_add(c, m));
    let xm: u8 = to_channel_byte(fx_add(x, m));
    let zm: u8 = to_channel_byte(fx_add(0, m));
    let h6: i128 = 6 * (h as i128);
    let rgb: [u8; 3] = if h6 < ONE as i128 {
        [cm, xm, zm]
    } else if h6 < 2 * ONE as i128 {
        [xm, cm, zm]
    } else if h6 < 3 * ONE as i128 {
        [zm, cm, xm]
    } else if h6 < 4 * ONE as i128 {
        [zm, xm, cm]
    } else if h6 < 5 * ONE as i128 {
        [xm, zm, cm]
    } else {
        [cm, zm, xm]
    };
    assert(rgb@ =~= hsv_to_rgb_spec(h, s, v));
    rgb
}

/// The fire colour of a particle with the given base colour, age factor
/// and height factor: redder, more saturated and darker the older and
/// higher the particle, but never black.
#[verifier::when_used_as_spec(fire_color_spec)]
pub fn get_fire_color(base: Hsv, age_factor: Fixed, height_factor: Fixed) -> (r: Hsv)
    ensures
        r == fire_color_spec(base, age_factor, height_factor),
        0 <= r.h < ONE,
        r.s <= ONE,
{
    let shift: i64 = fx_min(fx_add(age_factor, fx_mul(height_factor, HEIGHT_WEIGHT)), ONE);
    let tier: i64 = if base.h < RED_BELOW || base.h > RED_ABOVE {
        RED_TIER
    } else if base.h < ORANGE_BELOW {
        ORANGE_TIER
    } else {
        OTHER_TIER
    };
    let step: i64 = fx_mul(shift, tier);
    let h: i64 = if base.h < HALF {
        floor_mod(fx_max(fx_sub(base.h, step), 0), ONE)
    } else {
        floor_mod(fx_add(base.h, step), ONE)
    };
    let s: i64 = fx_min(fx_add(base.s, fx_mul(shift, SATURATION_GAIN)), ONE);
    let v: i64 = fx_mul(base.v, fx_max(fx_sub(ONE, fx_mul(shift, VALUE_LOSS)), VALUE_FLOOR));
    Hsv { h, s, v }
}

} // verus!
