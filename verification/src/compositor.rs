//! The flame compositor: every live particle becomes a circular splat with
//! quadratic falloff, blended into the pixel buffer by saturating addition.

use vstd::prelude::*;
use crate::buffer::{PixelBuffer, precedes};
use crate::color::{
    Hsv, TWO, fire_color_spec, get_fire_color, hsv_to_rgb, hsv_to_rgb_spec, rgb_to_hsv,
    rgb_to_hsv_spec,
};
use crate::fixed::{
    Fixed, ONE, fx_add, fx_add_spec, fx_div, fx_div_spec, fx_floor,
    fx_floor_spec, fx_from_int, fx_from_int_spec, fx_max, fx_max_spec, fx_mul, fx_mul_spec,
    fx_round, fx_round_spec, fx_sub, fx_sub_spec, lemma_product_fits,
};
use crate::particle::{FlameParticle, FrameEnv};
use crate::power::{pow_six_fifths, pow_six_fifths_spec};
use crate::trig::{cosine, cosine_spec, sine, sine_spec};

verus! {

/// Band power below which a band shows no extra sway or stretch: 0.3.
pub const POWER_FLOOR: i64 = 19661;

/// Strength of the brightness flicker: 0.2.
pub const FLICKER_INTENSITY: i64 = 13107;

/// Flicker cycles per radian of turbulence phase: 3.7.
pub const FLICKER_RATE: i64 = 242483;

/// Growth of the wobble over a lifetime: 0.5.
pub const WOBBLE_GROWTH: i64 = 32768;

/// Radians of the first wobble term per lifetime: 12.
pub const SWAY_RATE: i64 = 786432;

/// Radians of the second wobble term per lifetime: 8.5.
pub const RIPPLE_RATE: i64 = 557056;

/// Phase multiplier of the second wobble term: 1.7.
pub const RIPPLE_PHASE: i64 = 111411;

/// Gain of the second wobble term: 0.3.
pub const RIPPLE_GAIN: i64 = 19661;

/// Share of its size that a particle loses over its lifetime: 0.7.
pub const AGE_SHRINK: i64 = 45875;

/// Share of its size that a particle loses from bottom to top: 0.3.
pub const HEIGHT_SHRINK: i64 = 19661;

/// What the rendering of one band depends on besides its particles.
#[derive(Clone, Copy, Debug, PartialEq, Eq, Structural)]
pub struct BandLook {
    /// The band's base colour.
    pub base: Hsv,
    /// Wobble amplitude in pixels.
    pub wobble: Fixed,
    /// Vertical stretch of the flame.
    pub scale: Fixed,
}

/// The footprint of one particle: centre pixel, whole-pixel reach of its
/// bounding box, squared radius and colour.
#[derive(Clone, Copy, Debug, PartialEq, Eq, Structural)]
pub struct Splat {
    pub xi: i64,
    pub yi: i64,
    pub reach: i64,
    pub radius_sq: Fixed,
    pub red: u8,
    pub green: u8,
    pub blue: u8,
}

impl Splat {
    /// The colour component of channel `c`.
    pub open spec fn channel(self, c: int) -> u8 {
        if c == 0 {
            self.red
        } else if c == 1 {
            self.green
        } else {
            self.blue
        }
    }

    /// Whether pixel `(y, x)` lies in the bounding box.
    pub open spec fn covers(self, y: int, x: int) -> bool {
        &&& self.reach >= 0
        &&& self.yi - self.reach <= y <= self.yi + self.reach
        &&& self.xi - self.reach <= x <= self.xi + self.reach
    }

    /// Squared distance of pixel `(y, x)` from the centre.
    pub open spec fn distance_sq(self, y: int, x: int) -> int {
        (y - self.yi) * (y - self.yi) + (x - self.xi) * (x - self.xi)
    }
}

/// How far a band's power exceeds the floor, scaled by twice the intensity; never negative.
pub open spec fn scaled_power(power: Fixed, intensity: Fixed) -> Fixed {
    fx_max_spec(fx_mul_spec(fx_mul_spec(fx_sub_spec(power, POWER_FLOOR), intensity), TWO), 0)
}

/// The look of a band with the given power and base colour.
pub open spec fn band_look_spec(
    power: Fixed,
    intensity: Fixed,
    r: u8,
    g: u8,
    b: u8,
    env: FrameEnv,
) -> BandLook {
    let boost = scaled_power(power, intensity);
    BandLook {
        base: rgb_to_hsv_spec(r, g, b),
        wobble: fx_mul_spec(env.wobble_amplitude, fx_add_spec(ONE, fx_mul_spec(boost, TWO))),
        scale: fx_add_spec(ONE, boost),
    }
}

/// The fraction of its lifespan that a particle has lived.
pub open spec fn life_fraction(p: FlameParticle) -> Fixed {
    fx_div_spec(p.age, fx_max_spec(p.lifespan, 1))
}

/// How high a particle stands: 0 at the bottom of the image, 1 at the top.
pub open spec fn height_fraction(p: FlameParticle, height: usize) -> Fixed {
    fx_sub_spec(ONE, fx_div_spec(p.y, fx_max_spec(fx_from_int_spec(height), 1)))
}

/// The brightness multiplier: flicker times the fade `(1 - t)^1.2`.
pub open spec fn brightness_spec(p: FlameParticle) -> Fixed {
    let flicker = fx_add_spec(
        ONE,
        fx_mul_spec(
            fx_mul_spec(FLICKER_INTENSITY, sine_spec(fx_mul_spec(p.turbulence_phase, FLICKER_RATE))),
            p.initial_brightness,
        ),
    );
    fx_mul_spec(flicker, pow_six_fifths_spec(fx_sub_spec(ONE, life_fraction(p))))
}

/// A colour component scaled by a brightness, rounded down and clamped to a byte.
pub open spec fn tinted(c: u8, brightness: Fixed) -> u8 {
    let v = fx_floor_spec(fx_mul_spec((c * ONE) as i64, brightness));
    if v < 0 {
        0
    } else if v > 255 {
        255
    } else {
        v as u8
    }
}

/// The column at which a particle is drawn: its position displaced by the
/// two wobble terms, whose amplitude grows with age.
pub open spec fn displaced_x(p: FlameParticle, look: BandLook) -> Fixed {
    let t = life_fraction(p);
    let amp = fx_mul_spec(look.wobble, fx_add_spec(ONE, fx_mul_spec(t, WOBBLE_GROWTH)));
    let sway = fx_mul_spec(amp, sine_spec(fx_add_spec(fx_mul_spec(t, SWAY_RATE), p.wobble_phase)));
    let ripple = fx_mul_spec(
        fx_mul_spec(amp, RIPPLE_GAIN),
        cosine_spec(
            fx_add_spec(fx_mul_spec(t, RIPPLE_RATE), fx_mul_spec(p.wobble_phase, RIPPLE_PHASE)),
        ),
    );
    fx_add_spec(fx_add_spec(p.x, sway), ripple)
}

/// The row at which a particle is drawn: its distance from the bottom stretched by the scale.
pub open spec fn displaced_y(p: FlameParticle, height: usize, look: BandLook) -> Fixed {
    let h = fx_from_int_spec(height);
    fx_sub_spec(h, fx_mul_spec(fx_sub_spec(h, p.y), look.scale))
}

/// The rendered size of a particle: its size shrunk by age and by height.
pub open spec fn render_size(p: FlameParticle, height: usize) -> Fixed {
    fx_mul_spec(
        p.size,
        fx_mul_spec(
            fx_sub_spec(ONE, fx_mul_spec(life_fraction(p), AGE_SHRINK)),
            fx_sub_spec(ONE, fx_mul_spec(height_fraction(p, height), HEIGHT_SHRINK)),
        ),
    )
}

/// The footprint of a particle. A particle of negative rendered size gets
/// a negative reach and so covers no pixel.
pub open spec fn splat_of(p: FlameParticle, env: FrameEnv, look: BandLook) -> Splat {
    let fire = fire_color_spec(look.base, life_fraction(p), height_fraction(p, env.height));
    let rgb = hsv_to_rgb_spec(fire.h, fire.s, fire.v);
    let size = render_size(p, env.height);
    Splat {
        xi: fx_round_spec(displaced_x(p, look)),
        yi: fx_round_spec(displaced_y(p, env.height, look)),
        reach: if size < 0 { -1i64 } else { fx_floor_spec(size) },
        radius_sq: fx_mul_spec(size, size),
        red: tinted(rgb[0], brightness_spec(p)),
        green: tinted(rgb[1], brightness_spec(p)),
        blue: tinted(rgb[2], brightness_spec(p)),
    }
}

/// The falloff weight at squared distance `d2` from the centre of a splat
/// of squared radius `radius_sq`: `1 - d2 / radius_sq` inside the circle,
/// zero outside it.
pub open spec fn falloff(d2: int, radius_sq: Fixed) -> int {
    if radius_sq > 0 && d2 * ONE <= radius_sq {
        ONE - (d2 * ONE * ONE) / (radius_sq as int)
    } else {
        0
    }
}

/// Saturating addition of a weighted colour component to a stored byte.
/// The weight is a fraction of one; values outside `[0, 1]` count as the
/// nearer end.
pub open spec fn blended(current: u8, component: u8, weight: int) -> u8 {
    let share = if weight < 0 { 0 } else if weight > ONE { ONE as int } else { weight };
    let sum = current + (component * share) / (ONE as int);
    if sum > 255 {
        255
    } else {
        sum as u8
    }
}

/// The image after one splat: inside the bounding box each of the first
/// three channels gains the colour times the falloff, saturating at 255;
/// everything else is unchanged.
pub open spec fn splat_cells(cells: Map<(int, int, int), u8>, s: Splat) -> Map<(int, int, int), u8> {
    Map::new(
        |k: (int, int, int)| cells.contains_key(k),
        |k: (int, int, int)|
            if k.2 < 3 && s.covers(k.0, k.1) {
                blended(cells[k], s.channel(k.2), falloff(s.distance_sq(k.0, k.1), s.radius_sq))
            } else {
                cells[k]
            },
    )
}

/// The image after the particles of one band are drawn in order, dead ones being skipped.
pub open spec fn rendered(
    cells: Map<(int, int, int), u8>,
    ps: Seq<FlameParticle>,
    env: FrameEnv,
    look: BandLook,
) -> Map<(int, int, int), u8>
    decreases ps.len(),
{
    if ps.len() == 0 {
        cells
    } else {
        let before = rendered(cells, ps.drop_last(), env, look);
        if ps.last().alive() {
            splat_cells(before, splat_of(ps.last(), env, look))
        } else {
            before
        }
    }
}

impl BandLook {
    /// The look of a band with the given power and base colour.
    pub fn new(power: Fixed, intensity: Fixed, color: [u8; 3], env: &FrameEnv) -> (look: BandLook)
        ensures
            look == band_look_spec(power, intensity, color[0], color[1], color[2], *env),
    {
        let boost: i64 = fx_max(fx_mul(fx_mul(fx_sub(power, POWER_FLOOR), intensity), TWO), 0);
        BandLook {
            base: rgb_to_hsv(color[0], color[1], color[2]),
            wobble: fx_mul(env.wobble_amplitude, fx_add(ONE, fx_mul(boost, TWO))),
            scale: fx_add(ONE, boost),
        }
    }
}

/// A colour component scaled by a brightness.
#[verifier::when_used_as_spec(tinted)]
pub fn tint(c: u8, brightness: Fixed) -> (r: u8)
    ensures
        r == tinted(c, brightness),
{
    let v: i64 = fx_floor(fx_mul((c as i64) * ONE, brightness));
    if v < 0 {
        0
    } else if v > 255 {
        255
    } else {
        v as u8
    }
}

/// The footprint of a particle.
pub fn make_splat(p: FlameParticle, env: &FrameEnv, look: &BandLook) -> (s: Splat)
    ensures
        s == splat_of(p, *env, *look),
{
    let t: i64 = fx_div(p.age, fx_max(p.lifespan, 1));
    let h: i64 = fx_from_int(env.height);
    let hf: i64 = fx_sub(ONE, fx_div(p.y, fx_max(h, 1)));
    let fire: Hsv = get_fire_color(look.base, t, hf);
    let rgb: [u8; 3] = hsv_to_rgb(fire.h, fire.s, fire.v);
    let flicker: i64 = fx_add(
        ONE,
        fx_mul(
            fx_mul(FLICKER_INTENSITY, sine(fx_mul(p.turbulence_phase, FLICKER_RATE))),
            p.initial_brightness,
        ),
    );
    let brightness: i64 = fx_mul(flicker, pow_six_fifths(fx_sub(ONE, t)));
    let amp: i64 = fx_mul(look.wobble, fx_add(ONE, fx_mul(t, WOBBLE_GROWTH)));
    let sway: i64 = fx_mul(amp, sine(fx_add(fx_mul(t, SWAY_RATE), p.wobble_phase)));
    let ripple: i64 = fx_mul(
        fx_mul(amp, RIPPLE_GAIN),
        cosine(fx_add(fx_mul(t, RIPPLE_RATE), fx_mul(p.wobble_phase, RIPPLE_PHASE))),
    );
    let x_disp: i64 = fx_add(fx_add(p.x, sway), ripple);
    let y_disp: i64 = fx_sub(h, fx_mul(fx_sub(h, p.y), look.scale));
    let size: i64 = fx_mul(
        p.size,
        fx_mul(fx_sub(ONE, fx_mul(t, AGE_SHRINK)), fx_sub(ONE, fx_mul(hf, HEIGHT_SHRINK))),
    );
    Splat {
        xi: fx_round(x_disp),
        yi: fx_round(y_disp),
        reach: if size < 0 { -1 } else { fx_floor(size) },
        radius_sq: fx_mul(size, size),
        red: tint(rgb[0], brightness),
        green: tint(rgb[1], brightness),
        blue: tint(rgb[2], brightness),
    }
}

/// The falloff weight at squared distance `d2`.
pub fn falloff_weight(d2: u128, radius_sq: Fixed) -> (w: i64)
    ensures
        w == falloff(d2 as int, radius_sq),
        0 <= w <= ONE,
{
    if radius_sq <= 0 {
        return 0;
    }
    let limit: u128 = (radius_sq / ONE) as u128;
    if d2 > limit {
        return 0;
    }
    assert(d2 * ONE <= radius_sq);
    let num: u128 = d2 * 65536 * 65536;
    let q: u128 = num / (radius_sq as u128);
    assert(q <= ONE) by (nonlinear_arith)
        requires
            q == num / (radius_sq as u128),
            num == d2 * 65536 * 65536,
            d2 * 65536 <= radius_sq,
            radius_sq > 0,
    ;
    ONE - (q as i64)
}

/// Saturating addition of a weighted colour component to a stored byte.
pub fn blend(current: u8, component: u8, weight: i64) -> (r: u8)
    ensures
        r == blended(current, component, weight as int),
{
    let share: i64 = if weight < 0 { 0 } else if weight > ONE { ONE } else { weight };
    assert(0 <= (component as i64) * share <= 255 * ONE) by (nonlinear_arith)
        requires
            0 <= component <= 255,
            0 <= share <= ONE,
    ;
    let gain: i64 = ((component as i64) * share) / ONE;
    let sum: i64 = current as i64 + gain;
    if sum > 255 {
        255
    } else {
        sum as u8
    }
}

/// A coordinate clamped into `0..=n`.
pub open spec fn clamp_index(v: int, n: int) -> int {
    if v <= 0 {
        0
    } else if v >= n {
        n
    } else {
        v
    }
}

/// The part of `lo..hi` that lies inside `0..n`, as a pair of bounds.
pub fn clip_span(lo: i128, hi: i128, n: usize) -> (r: (usize, usize))
    ensures
        r.0 <= r.1 <= n,
        r.0 == clamp_index(lo as int, n as int),
        r.1 == if hi < lo { r.0 as int } else { clamp_index(hi as int, n as int) },
{
    let start: usize = if lo <= 0 {
        0
    } else if lo >= n as i128 {
        n
    } else {
        lo as usize
    };
    let end: usize = if hi <= 0 {
        0
    } else if hi >= n as i128 {
        n
    } else {
        hi as usize
    };
    if end < start {
        (start, start)
    } else {
        (start, end)
    }
}

/// Blends one splat into the image. Of an image with fewer than three
/// channels, those that exist are drawn.
pub fn draw_splat(image: &mut PixelBuffer, s: &Splat)
    ensures
        final(image).wf(),
        final(image).same_shape(*old(image)),
        final(image).cells() == splat_cells(old(image).cells(), *s),
{
    let (h, w, ch) = image.dims();
    let drawn: usize = if ch < 3 { ch } else { 3 };
    let ghost target = splat_cells(old(image).cells(), *s);
    if s.reach < 0 {
        assert(image.cells() =~= target);
        return ;
    }
    let reach: i128 = s.reach as i128;
    let yi: i128 = s.yi as i128;
    let xi: i128 = s.xi as i128;
    let (y_start, y_end) = clip_span(yi - reach, yi + reach + 1, h);
    let (x_start, x_end) = clip_span(xi - reach, xi + reach + 1, w);
    let mut py: usize = y_start;
    while py < y_end
        invariant
            y_start <= py <= y_end <= h,
            x_start <= x_end <= w,
            h == old(image).rows(),
            w == old(image).cols(),
            ch == old(image).channels(),
            drawn == (if ch < 3 { ch } else { 3 }),
            reach == s.reach,
            yi == s.yi,
            xi == s.xi,
            reach >= 0,
            y_start == clamp_index(yi - reach, h as int),
            y_end == clamp_index(yi + reach + 1, h as int),
            x_start == clamp_index(xi - reach, w as int),
            x_end == clamp_index(xi + reach + 1, w as int),
            image.wf(),
            old(image).wf(),
            image.same_shape(*old(image)),
            target == splat_cells(old(image).cells(), *s),
            forall|k: (int, int, int)|
                image.holds(k.0, k.1, k.2) ==> #[trigger] image.cells()[k] == (if precedes(
                    k,
                    py as int,
                    0,
                    0,
                ) {
                    target[k]
                } else {
                    old(image).cells()[k]
                }),
        decreases y_end - py,
    {
        let dy: i128 = py as i128 - yi;
        assert(-reach <= dy <= reach);
        proof {
            lemma_product_fits(dy as int, dy as int);
            assert(dy * dy >= 0) by (nonlinear_arith);
        }
        let dy2: u128 = (dy * dy) as u128;
        let mut px: usize = x_start;
        while px < x_end
            invariant
                y_start <= py < y_end <= h,
                x_start <= px <= x_end <= w,
                h == old(image).rows(),
                w == old(image).cols(),
                ch == old(image).channels(),
                drawn == (if ch < 3 { ch } else { 3 }),
                reach == s.reach,
                yi == s.yi,
                xi == s.xi,
                reach >= 0,
                dy == py - yi,
                dy2 == dy * dy,
                dy2 <= 0x4000_0000_0000_0000_0000_0000_0000_0000,
                y_start == clamp_index(yi - reach, h as int),
                y_end == clamp_index(yi + reach + 1, h as int),
                x_start == clamp_index(xi - reach, w as int),
                x_end == clamp_index(xi + reach + 1, w as int),
                image.wf(),
                old(image).wf(),
                image.same_shape(*old(image)),
                target == splat_cells(old(image).cells(), *s),
                forall|k: (int, int, int)|
                    image.holds(k.0, k.1, k.2) ==> #[trigger] image.cells()[k] == (if precedes(
                        k,
                        py as int,
                        px as int,
                        0,
                    ) {
                        target[k]
                    } else {
                        old(image).cells()[k]
                    }),
            decreases x_end - px,
        {
            let dx: i128 = px as i128 - xi;
            assert(-reach <= dx <= reach);
            proof {
                lemma_product_fits(dx as int, dx as int);
                assert(dx * dx >= 0) by (nonlinear_arith);
            }
            let d2: u128 = dy2 + (dx * dx) as u128;
            assert(d2 == s.distance_sq(py as int, px as int));
            assert(s.covers(py as int, px as int));
            let weight: i64 = falloff_weight(d2, s.radius_sq);
            let mut c: usize = 0;
            while c < drawn
                invariant
                    py < h,
                    px < w,
                    c <= drawn,
                    h == old(image).rows(),
                    w == old(image).cols(),
                    ch == old(image).channels(),
                    drawn == (if ch < 3 { ch } else { 3 }),
                    s.covers(py as int, px as int),
                    weight == falloff(s.distance_sq(py as int, px as int), s.radius_sq),
                    0 <= weight <= ONE,
                    image.wf(),
                    old(image).wf(),
                    image.same_shape(*old(image)),
                    target == splat_cells(old(image).cells(), *s),
                    forall|k: (int, int, int)|
                        image.holds(k.0, k.1, k.2) ==> #[trigger] image.cells()[k] == (if precedes(
                            k,
                            py as int,
                            px as int,
                            c as int,
                        ) {
                            target[k]
                        } else {
                            old(image).cells()[k]
                        }),
                decreases drawn - c,
            {
                let component: u8 = if c == 0 {
                    s.red
                } else if c == 1 {
                    s.green
                } else {
                    s.blue
                };
                let current: u8 = image.cell(py, px, c);
                let ghost before = *image;
                let ghost here = (py as int, px as int, c as int);
                assert(old(image).cells().contains_key(here));
                assert(image.holds(here.0, here.1, here.2));
                assert(!precedes(here, py as int, px as int, c as int));
                assert(image.cells()[here] == old(image).cells()[here]);
                assert(current == old(image).cells()[here]);
                let value: u8 = blend(current, component, weight);
                assert(value == target[here]);
                image.put(py, px, c, value);
                proof {
                    assert forall|k: (int, int, int)| #[trigger]
                        image.cells().contains_key(k) <==> image.holds(k.0, k.1, k.2) by {
                        assert(before.cells().contains_key(k) <==> before.holds(k.0, k.1, k.2));
                        assert(k == here <==> (k.0 == here.0 && k.1 == here.1 && k.2 == here.2));
                    }
                    assert forall|k: (int, int, int)| image.holds(k.0, k.1, k.2) implies #[trigger]
                        image.cells()[k] == (if precedes(k, py as int, px as int, c as int + 1) {
                        target[k]
                    } else {
                        old(image).cells()[k]
                    }) by {
                        assert(k == here <==> (k.0 == here.0 && k.1 == here.1 && k.2 == here.2));
                        if k != here {
                            assert(image.cells()[k] == before.cells()[k]);
                            assert(before.holds(k.0, k.1, k.2));
                        }
                    }
                }
                c += 1;
            }
            proof {
                assert forall|k: (int, int, int)| image.holds(k.0, k.1, k.2) implies #[trigger]
                    image.cells()[k] == (if precedes(k, py as int, px as int + 1, 0) {
                    target[k]
                } else {
                    old(image).cells()[k]
                }) by {
                    assert(old(image).cells().contains_key(k));
                }
            }
            px += 1;
        }
        proof {
            assert forall|k: (int, int, int)| image.holds(k.0, k.1, k.2) implies #[trigger]
                image.cells()[k] == (if precedes(k, py as int + 1, 0, 0) {
                target[k]
            } else {
                old(image).cells()[k]
            }) by {
                assert(old(image).cells().contains_key(k));
            }
        }
        py += 1;
    }
    proof {
        assert forall|k: (int, int, int)| image.cells().contains_key(k) implies #[trigger]
            image.cells()[k] == target[k] by {
            assert(image.holds(k.0, k.1, k.2));
            assert(old(image).cells().contains_key(k));
        }
        assert(image.cells() =~= target);
    }
}

/// Draws the particles of one band in order, skipping dead ones.
pub fn render_particles(
    image: &mut PixelBuffer,
    particles: &Vec<FlameParticle>,
    env: &FrameEnv,
    look: &BandLook,
)
    ensures
        final(image).wf(),
        final(image).same_shape(*old(image)),
        final(image).cells() == rendered(old(image).cells(), particles@, *env, *look),
{
    let _ = image.dims();
    let n: usize = particles.len();
    let mut i: usize = 0;
    while i < n
        invariant
            i <= n,
            n == particles@.len(),
            image.wf(),
            image.same_shape(*old(image)),
            image.cells() == rendered(old(image).cells(), particles@.take(i as int), *env, *look),
        decreases n - i,
    {
        let p: FlameParticle = particles[i];
        proof {
            assert(particles@.take(i + 1).drop_last() =~= particles@.take(i as int));
            assert(particles@.take(i + 1).last() == p);
        }
        if p.age < p.lifespan {
            let s: Splat = make_splat(p, env, look);
            draw_splat(image, &s);
        }
        i += 1;
    }
    proof {
        assert(particles@.take(n as int) =~= particles@);
    }
}

} // verus!
