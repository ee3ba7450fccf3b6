//! The blob compositor: every particle adds a normalised Gaussian kernel,
//! scaled by its colour and opacity, to a grid of high-precision sums; only
//! when all particles are in are the sums rounded and clamped into the
//! buffer, so overlapping particles lose nothing to rounding.

use vstd::prelude::*;
use crate::buffer::{PixelBuffer, in_bounds, precedes};
use crate::compositor::{clamp_index, clip_span};
use crate::fixed::{Fixed, HALF, ONE, fx_round, fx_round_spec};
use crate::sums::{SumGrid, blob_seed, grid_shape};
use crate::kernel::{
    KERNEL_ONE, KernelCache, MAX_BLOB_RADIUS, as_ints, kernel_side, kernel_weights,
    lemma_kernel_sums_to_one,
};

verus! {

/// A particle of the blob compositor.
#[derive(Clone, Copy, Debug)]
pub struct Particle {
    /// Column of the centre, in pixels.
    pub x: Fixed,
    /// Row of the centre, in pixels.
    pub y: Fixed,
    pub color: [u8; 3],
    /// Kernel radius in pixels; a particle of radius zero is not drawn.
    pub radius: usize,
    /// Opacity; a particle of opacity zero or less is not drawn.
    pub alpha: Fixed,
}

/// Why nothing was drawn.
#[derive(Clone, Copy, Debug, PartialEq, Eq, Structural)]
pub enum BlobError {
    /// The buffer has fewer than three channels.
    TooFewChannels,
    /// A particle has a radius above `MAX_BLOB_RADIUS`.
    RadiusTooLarge,
}

/// Whether pixel `(y, x)` lies in the kernel grid of a particle, which is
/// centred on the pixel nearest to the particle.
pub open spec fn blob_covers(p: Particle, y: int, x: int) -> bool {
    let r = p.radius as int;
    &&& fx_round_spec(p.y) - r <= y <= fx_round_spec(p.y) + r
    &&& fx_round_spec(p.x) - r <= x <= fx_round_spec(p.x) + r
}

/// The kernel weight of a particle at a pixel that its grid covers.
pub open spec fn blob_weight(p: Particle, y: int, x: int) -> int {
    let r = p.radius as int;
    let ky = y - (fx_round_spec(p.y) - r);
    let kx = x - (fx_round_spec(p.x) - r);
    kernel_weights(r)[ky * kernel_side(r) + kx]
}

/// What a particle adds to channel `c` of pixel `(y, x)`, in fixed point:
/// kernel weight × colour × opacity inside its grid, nothing outside it.
pub open spec fn blob_gain(p: Particle, y: int, x: int, c: int) -> int {
    if p.alpha <= 0 || p.radius == 0 || !blob_covers(p, y, x) {
        0
    } else {
        (blob_weight(p, y, x) * p.color[c] * p.alpha) / (KERNEL_ONE as int)
    }
}

/// What all particles together add to channel `c` of pixel `(y, x)`.
pub open spec fn blob_total(ps: Seq<Particle>, y: int, x: int, c: int) -> int
    decreases ps.len(),
{
    if ps.len() == 0 {
        0
    } else {
        blob_total(ps.drop_last(), y, x, c) + blob_gain(ps.last(), y, x, c)
    }
}

/// The byte of a sum: the nearest whole number, at most 255.
pub open spec fn sum_byte(sum: int) -> u8 {
    let v = (sum + HALF) / (ONE as int);
    if v > 255 {
        255
    } else if v < 0 {
        0
    } else {
        v as u8
    }
}

/// The byte written for a pixel: the byte of its seed plus what the particles add.
pub open spec fn blob_pixel(stored: u8, additive: bool, total: int) -> u8 {
    sum_byte(blob_seed(stored, additive) + total)
}

/// The image after the particles are composited: the first three channels
/// of every pixel are recomputed, further channels are left alone.
pub open spec fn blob_cells(cells: Map<(int, int, int), u8>, ps: Seq<Particle>, additive: bool) -> Map<
    (int, int, int),
    u8,
> {
    Map::new(
        |k: (int, int, int)| cells.contains_key(k),
        |k: (int, int, int)|
            if k.2 < 3 {
                blob_pixel(cells[k], additive, blob_total(ps, k.0, k.1, k.2))
            } else {
                cells[k]
            },
    )
}

/// Whether a particle contributes anything at all.
pub open spec fn is_drawn(p: Particle) -> bool {
    p.alpha > 0 && p.radius > 0
}

/// Whether the cache holds the kernel of every drawn particle among the first `n`.
pub open spec fn kernels_ready(cache: KernelCache, ps: Seq<Particle>, n: int) -> bool {
    forall|i: int|
        0 <= i < n ==> (#[trigger] ps[i]).radius <= MAX_BLOB_RADIUS && (is_drawn(ps[i])
            ==> cache.kernels@.contains_key(ps[i].radius))
}

/// Whether some particle has a radius above the limit.
pub open spec fn has_oversized(ps: Seq<Particle>) -> bool {
    exists|i: int| 0 <= i < ps.len() && (#[trigger] ps[i]).radius > MAX_BLOB_RADIUS
}

/// The value at which the stored sums saturate. It lies far above the
/// largest sum that does not yet round to 255, so saturating a sum does not
/// change its byte.
pub const SUM_CAP: u128 = 0x1_0000_0000_0000_0000_0000_0000;

/// A sum as it is stored: saturated at `SUM_CAP`.
pub open spec fn capped(sum: int) -> int {
    if sum > SUM_CAP {
        SUM_CAP as int
    } else {
        sum
    }
}

/// A stored sum after a particle has, or has not yet, added its gain.
pub open spec fn settled(stored: int, gain: int, done: bool) -> int {
    if done && gain > 0 {
        capped(stored + gain)
    } else {
        stored
    }
}

/// Adds the kernel of one particle to the sums of the first three channels.
fn add_blob(sums: &mut SumGrid, p: &Particle, kernel: &Vec<u64>, h: usize, w: usize, ch: usize)
    requires
        old(sums).wf_for(h as nat, w as nat, ch as nat),
        ch >= 3,
        p.radius <= MAX_BLOB_RADIUS,
        is_drawn(*p),
        as_ints(kernel@) == kernel_weights(p.radius as int),
        forall|i: int| 0 <= i < kernel@.len() ==> #[trigger] kernel@[i] <= KERNEL_ONE,
        forall|k: (int, int, int)| #[trigger]
            old(sums).sums().contains_key(k) ==> old(sums).sums()[k] <= SUM_CAP,
    ensures
        final(sums).wf_for(h as nat, w as nat, ch as nat),
        forall|k: (int, int, int)| #[trigger]
            final(sums).sums().contains_key(k) ==> final(sums).sums()[k] == settled(
                old(sums).sums()[k] as int,
                blob_gain(*p, k.0, k.1, k.2),
                k.2 < 3,
            ) && final(sums).sums()[k] <= SUM_CAP,
        forall|y: int, x: int, c: int| 0 <= c < 3 ==> #[trigger] blob_gain(*p, y, x, c) >= 0,
{
    let r: i128 = p.radius as i128;
    let side: i128 = 2 * r + 1;
    let cy: i128 = fx_round(p.y) as i128;
    let cx: i128 = fx_round(p.x) as i128;
    let alpha: u128 = p.alpha as u128;
    let (y_start, y_end) = clip_span(cy - r, cy + r + 1, h);
    let (x_start, x_end) = clip_span(cx - r, cx + r + 1, w);
    proof {
        lemma_kernel_sums_to_one(r as int);
        assert(side * side <= 0xfffe_0001) by (nonlinear_arith)
            requires
                0 <= side <= 65535,
        ;
        assert(kernel@.len() == as_ints(kernel@).len());
        assert forall|y: int, x: int, c: int| 0 <= c < 3 implies #[trigger] blob_gain(*p, y, x, c)
            >= 0 by {
            if blob_covers(*p, y, x) {
                let ky = y - (cy - r);
                let kx = x - (cx - r);
                assert(0 <= ky * side + kx < side * side) by (nonlinear_arith)
                    requires
                        0 <= ky < side,
                        0 <= kx < side,
                ;
                let weight = kernel@[ky * side + kx];
                assert(weight == as_ints(kernel@)[ky * side + kx]);
                assert(0 <= (weight * p.color[c] * p.alpha) / (KERNEL_ONE as int))
                    by (nonlinear_arith)
                    requires
                        0 <= weight,
                        0 <= p.color[c],
                        0 < p.alpha,
                ;
            }
        }
    }
    let mut py: usize = y_start;
    while py < y_end
        invariant
            y_start <= py <= y_end <= h,
            x_start <= x_end <= w,
            ch >= 3,
            sums.wf_for(h as nat, w as nat, ch as nat),
            old(sums).wf_for(h as nat, w as nat, ch as nat),
            r == p.radius,
            side == 2 * r + 1,
            side == kernel_side(r as int),
            0 < r <= MAX_BLOB_RADIUS,
            cy == fx_round_spec(p.y),
            cx == fx_round_spec(p.x),
            alpha == p.alpha,
            is_drawn(*p),
            kernel@.len() == side * side,
            side * side <= 0xfffe_0001,
            as_ints(kernel@) == kernel_weights(p.radius as int),
            forall|i: int| 0 <= i < kernel@.len() ==> #[trigger] kernel@[i] <= KERNEL_ONE,
            y_start == clamp_index(cy - r, h as int),
            y_end == clamp_index(cy + r + 1, h as int),
            x_start == clamp_index(cx - r, w as int),
            x_end == clamp_index(cx + r + 1, w as int),
            forall|k: (int, int, int)| #[trigger]
                old(sums).sums().contains_key(k) ==> old(sums).sums()[k] <= SUM_CAP,
            forall|k: (int, int, int)| #[trigger]
                sums.sums().contains_key(k) ==> sums.sums()[k] == settled(
                    old(sums).sums()[k] as int,
                    blob_gain(*p, k.0, k.1, k.2),
                    k.2 < 3 && precedes(k, py as int, 0, 0),
                ) && sums.sums()[k] <= SUM_CAP,
        decreases y_end - py,
    {
        let ky: i128 = py as i128 - (cy - r);
        let mut px: usize = x_start;
        while px < x_end
            invariant
                y_start <= py < y_end <= h,
                x_start <= px <= x_end <= w,
                ch >= 3,
                sums.wf_for(h as nat, w as nat, ch as nat),
                old(sums).wf_for(h as nat, w as nat, ch as nat),
                r == p.radius,
                side == 2 * r + 1,
                side == kernel_side(r as int),
                0 < r <= MAX_BLOB_RADIUS,
                cy == fx_round_spec(p.y),
                cx == fx_round_spec(p.x),
                alpha == p.alpha,
                is_drawn(*p),
                ky == py - (cy - r),
                0 <= ky < side,
                kernel@.len() == side * side,
                side * side <= 0xfffe_0001,
                as_ints(kernel@) == kernel_weights(p.radius as int),
                forall|i: int| 0 <= i < kernel@.len() ==> #[trigger] kernel@[i] <= KERNEL_ONE,
                y_start == clamp_index(cy - r, h as int),
                y_end == clamp_index(cy + r + 1, h as int),
                x_start == clamp_index(cx - r, w as int),
                x_end == clamp_index(cx + r + 1, w as int),
                forall|k: (int, int, int)| #[trigger]
                    old(sums).sums().contains_key(k) ==> old(sums).sums()[k] <= SUM_CAP,
                forall|k: (int, int, int)| #[trigger]
                    sums.sums().contains_key(k) ==> sums.sums()[k] == settled(
                        old(sums).sums()[k] as int,
                        blob_gain(*p, k.0, k.1, k.2),
                        k.2 < 3 && precedes(k, py as int, px as int, 0),
                    ) && sums.sums()[k] <= SUM_CAP,
            decreases x_end - px,
        {
            let kx: i128 = px as i128 - (cx - r);
            assert(0 <= ky * side <= ky * side + kx < side * side) by (nonlinear_arith)
                requires
                    0 <= ky < side,
                    0 <= kx < side,
            ;
            let weight: u64 = kernel[(ky * side + kx) as usize];
            assert(weight == as_ints(kernel@)[ky * side + kx]);
            assert(weight == blob_weight(*p, py as int, px as int));
            assert(weight <= KERNEL_ONE);
            assert(blob_covers(*p, py as int, px as int));
            let mut c: usize = 0;
            while c < 3
                invariant
                    py < h,
                    px < w,
                    c <= 3,
                    ch >= 3,
                    sums.wf_for(h as nat, w as nat, ch as nat),
                    old(sums).wf_for(h as nat, w as nat, ch as nat),
                    is_drawn(*p),
                    alpha == p.alpha,
                    weight == blob_weight(*p, py as int, px as int),
                    weight <= KERNEL_ONE,
                    blob_covers(*p, py as int, px as int),
                    forall|k: (int, int, int)| #[trigger]
                        old(sums).sums().contains_key(k) ==> old(sums).sums()[k] <= SUM_CAP,
                    forall|k: (int, int, int)| #[trigger]
                        sums.sums().contains_key(k) ==> sums.sums()[k] == settled(
                            old(sums).sums()[k] as int,
                            blob_gain(*p, k.0, k.1, k.2),
                            k.2 < 3 && precedes(k, py as int, px as int, c as int),
                        ) && sums.sums()[k] <= SUM_CAP,
                decreases 3 - c,
            {
                assert(0 <= weight * p.color[c as int] <= 0x1_0000_0000 * 255 && 0 <= weight
                    * p.color[c as int] * alpha <= 0x1_0000_0000 * 255 * 0x8000_0000_0000_0000)
                    by (nonlinear_arith)
                    requires
                        0 <= weight <= 0x1_0000_0000,
                        0 <= p.color[c as int] <= 255,
                        0 <= alpha <= 0x8000_0000_0000_0000,
                ;
                let gain: u128 = ((weight as u128) * (p.color[c] as u128) * alpha) / 0x1_0000_0000;
                assert(gain == blob_gain(*p, py as int, px as int, c as int));
                let ghost here = (py as int, px as int, c as int);
                let ghost before = *sums;
                proof {
                    assert(sums.sums().contains_key(here));
                    assert(old(sums).sums().contains_key(here));
                    assert(!precedes(here, py as int, px as int, c as int));
                }
                let raised: u128 = sums.sum(py, px, c) + gain;
                let sum: u128 = if raised > SUM_CAP { SUM_CAP } else { raised };
                sums.put(py, px, c, sum);
                proof {
                    assert forall|k: (int, int, int)| #[trigger]
                        sums.sums().contains_key(k) <==> in_bounds(
                            h as nat,
                            w as nat,
                            ch as nat,
                            k.0,
                            k.1,
                            k.2,
                        ) by {
                        assert(before.sums().contains_key(k) <==> in_bounds(
                            h as nat,
                            w as nat,
                            ch as nat,
                            k.0,
                            k.1,
                            k.2,
                        ));
                        assert(k == here <==> (k.0 == here.0 && k.1 == here.1 && k.2 == here.2));
                    }
                    assert forall|k: (int, int, int)| #[trigger]
                        sums.sums().contains_key(k) implies sums.sums()[k] == settled(
                        old(sums).sums()[k] as int,
                        blob_gain(*p, k.0, k.1, k.2),
                        k.2 < 3 && precedes(k, py as int, px as int, c as int + 1),
                    ) && sums.sums()[k] <= SUM_CAP by {
                        assert(k == here <==> (k.0 == here.0 && k.1 == here.1 && k.2 == here.2));
                        if k != here {
                            assert(before.sums().contains_key(k));
                            assert(sums.sums()[k] == before.sums()[k]);
                        }
                    }
                }
                c += 1;
            }
            proof {
                assert forall|k: (int, int, int)| #[trigger]
                    sums.sums().contains_key(k) implies sums.sums()[k] == settled(
                    old(sums).sums()[k] as int,
                    blob_gain(*p, k.0, k.1, k.2),
                    k.2 < 3 && precedes(k, py as int, px as int + 1, 0),
                ) && sums.sums()[k] <= SUM_CAP by {}
            }
            px += 1;
        }
        proof {
            assert forall|k: (int, int, int)| #[trigger]
                sums.sums().contains_key(k) implies sums.sums()[k] == settled(
                old(sums).sums()[k] as int,
                blob_gain(*p, k.0, k.1, k.2),
                k.2 < 3 && precedes(k, py as int + 1, 0, 0),
            ) && sums.sums()[k] <= SUM_CAP by {}
        }
        py += 1;
    }
}

/// Rounds the sums of the first three channels into the image.
fn write_sums(image: &mut PixelBuffer, sums: &SumGrid)
    requires
        old(image).channels() >= 3,
        sums.wf_for(old(image).rows(), old(image).cols(), old(image).channels()),
    ensures
        final(image).wf(),
        final(image).same_shape(*old(image)),
        forall|k: (int, int, int)| #[trigger]
            final(image).cells().contains_key(k) ==> final(image).cells()[k] == (if k.2 < 3 {
                sum_byte(sums.sums()[k] as int)
            } else {
                old(image).cells()[k]
            }),
{
    let (h, w, ch) = image.dims();
    let mut y: usize = 0;
    while y < h
        invariant
            y <= h,
            h == old(image).rows(),
            w == old(image).cols(),
            ch == old(image).channels(),
            ch >= 3,
            sums.wf_for(h as nat, w as nat, ch as nat),
            image.wf(),
            old(image).wf(),
            image.same_shape(*old(image)),
            forall|k: (int, int, int)|
                image.holds(k.0, k.1, k.2) ==> #[trigger] image.cells()[k] == (if k.2 < 3
                    && precedes(k, y as int, 0, 0) {
                    sum_byte(sums.sums()[k] as int)
                } else {
                    old(image).cells()[k]
                }),
        decreases h - y,
    {
        let mut x: usize = 0;
        while x < w
            invariant
                y < h,
                x <= w,
                h == old(image).rows(),
                w == old(image).cols(),
                ch == old(image).channels(),
                ch >= 3,
                sums.wf_for(h as nat, w as nat, ch as nat),
                image.wf(),
                old(image).wf(),
                image.same_shape(*old(image)),
                forall|k: (int, int, int)|
                    image.holds(k.0, k.1, k.2) ==> #[trigger] image.cells()[k] == (if k.2 < 3
                        && precedes(k, y as int, x as int, 0) {
                        sum_byte(sums.sums()[k] as int)
                    } else {
                        old(image).cells()[k]
                    }),
            decreases w - x,
        {
            let mut c: usize = 0;
            while c < 3
                invariant
                    y < h,
                    x < w,
                    c <= 3,
                    h == old(image).rows(),
                    w == old(image).cols(),
                    ch == old(image).channels(),
                    ch >= 3,
                    sums.wf_for(h as nat, w as nat, ch as nat),
                    image.wf(),
                    old(image).wf(),
                    image.same_shape(*old(image)),
                    forall|k: (int, int, int)|
                        image.holds(k.0, k.1, k.2) ==> #[trigger] image.cells()[k] == (if k.2 < 3
                            && precedes(k, y as int, x as int, c as int) {
                            sum_byte(sums.sums()[k] as int)
                        } else {
                            old(image).cells()[k]
                        }),
                decreases 3 - c,
            {
                let sum: u128 = sums.sum(y, x, c);
                let v: u128 = (sum / 65536) + (if sum % 65536 >= 32768 { 1u128 } else { 0u128 });
                let value: u8 = if v > 255 { 255 } else { v as u8 };
                assert(value == sum_byte(sum as int));
                let ghost before = *image;
                let ghost here = (y as int, x as int, c as int);
                image.put(y, x, c, value);
                proof {
                    assert forall|k: (int, int, int)| #[trigger]
                        image.cells().contains_key(k) <==> image.holds(k.0, k.1, k.2) by {
                        assert(before.cells().contains_key(k) <==> before.holds(k.0, k.1, k.2));
                        assert(k == here <==> (k.0 == here.0 && k.1 == here.1 && k.2 == here.2));
                    }
                    assert forall|k: (int, int, int)| image.holds(k.0, k.1, k.2) implies #[trigger]
                        image.cells()[k] == (if k.2 < 3 && precedes(
                        k,
                        y as int,
                        x as int,
                        c as int + 1,
                    ) {
                        sum_byte(sums.sums()[k] as int)
                    } else {
                        old(image).cells()[k]
                    }) by {
                        assert(k == here <==> (k.0 == here.0 && k.1 == here.1 && k.2 == here.2));
                        if k != here {
                            assert(image.cells()[k] == before.cells()[k]);
                            assert(before.holds(k.0, k.1, k.2));
                        }
                    }
                }
                c += 1;
            }
            x += 1;
        }
        y += 1;
    }
}

/// Builds the kernels that the particles need, or reports a radius above the limit.
pub fn prepare_kernels(cache: &mut KernelCache, particles: &[Particle]) -> (ok: bool)
    requires
        old(cache).wf(),
    ensures
        final(cache).wf(),
        ok == !has_oversized(particles@),
        ok ==> kernels_ready(*final(cache), particles@, particles@.len() as int),
        forall|r: usize| #[trigger]
            old(cache).kernels@.contains_key(r) ==> final(cache).kernels@.contains_key(r),
{
    let n: usize = particles.len();
    let mut i: usize = 0;
    while i < n
        invariant
            i <= n,
            n == particles@.len(),
            cache.wf(),
            kernels_ready(*cache, particles@, i as int),
            forall|r: usize| #[trigger]
                old(cache).kernels@.contains_key(r) ==> cache.kernels@.contains_key(r),
        decreases n - i,
    {
        let radius: usize = particles[i].radius;
        if radius > MAX_BLOB_RADIUS {
            return false;
        }
        if particles[i].alpha > 0 && radius > 0 {
            cache.prepare(radius);
        }
        i += 1;
    }
    true
}

/// Adds the kernels of all particles to the sums of the first three channels.
fn add_blobs(
    sums: &mut SumGrid,
    particles: &[Particle],
    cache: &KernelCache,
    h: usize,
    w: usize,
    ch: usize,
)
    requires
        old(sums).wf_for(h as nat, w as nat, ch as nat),
        ch >= 3,
        cache.wf(),
        kernels_ready(*cache, particles@, particles@.len() as int),
        forall|k: (int, int, int)| #[trigger]
            old(sums).sums().contains_key(k) ==> old(sums).sums()[k] <= 255 * ONE,
    ensures
        final(sums).wf_for(h as nat, w as nat, ch as nat),
        forall|k: (int, int, int)| #[trigger]
            final(sums).sums().contains_key(k) ==> final(sums).sums()[k] == (if k.2 < 3 {
                capped(old(sums).sums()[k] + blob_total(particles@, k.0, k.1, k.2))
            } else {
                old(sums).sums()[k] as int
            }),
{
    let n: usize = particles.len();
    let mut i: usize = 0;
    while i < n
        invariant
            i <= n,
            n == particles@.len(),
            ch >= 3,
            sums.wf_for(h as nat, w as nat, ch as nat),
            old(sums).wf_for(h as nat, w as nat, ch as nat),
            cache.wf(),
            kernels_ready(*cache, particles@, particles@.len() as int),
            forall|k: (int, int, int)| #[trigger]
                old(sums).sums().contains_key(k) ==> old(sums).sums()[k] <= 255 * ONE,
            forall|k: (int, int, int)| #[trigger]
                sums.sums().contains_key(k) ==> sums.sums()[k] <= SUM_CAP && sums.sums()[k] == (if k.2
                    < 3 {
                    capped(
                        old(sums).sums()[k] + blob_total(
                            particles@.take(i as int),
                            k.0,
                            k.1,
                            k.2,
                        ),
                    )
                } else {
                    old(sums).sums()[k] as int
                }),
        decreases n - i,
    {
        let ghost before = *sums;
        proof {
            assert(particles@.take(i + 1).drop_last() =~= particles@.take(i as int));
            assert(particles@.take(i + 1).last() == particles@[i as int]);
        }
        let p: &Particle = &particles[i];
        if p.alpha > 0 && p.radius > 0 {
            match cache.kernels.get(&p.radius) {
                Some(kernel) => {
                    add_blob(sums, p, kernel, h, w, ch);
                },
                None => {},
            }
        }
        proof {
            assert forall|k: (int, int, int)| #[trigger]
                sums.sums().contains_key(k) implies sums.sums()[k] <= SUM_CAP && sums.sums()[k] == (
            if k.2 < 3 {
                capped(
                    old(sums).sums()[k] + blob_total(particles@.take(i + 1), k.0, k.1, k.2),
                )
            } else {
                old(sums).sums()[k] as int
            }) by {
                assert(before.sums().contains_key(k));
                assert(old(sums).sums().contains_key(k));
                if k.2 < 3 {
                    assert(blob_gain(particles@[i as int], k.0, k.1, k.2) >= 0);
                }
            }
        }
        i += 1;
    }
    proof {
        assert(particles@.take(n as int) =~= particles@);
    }
}

/// Composites the particles into `output` with the kernels of `cache`,
/// building those that are missing.
pub fn render_particle_blobs_cached(
    output: &mut PixelBuffer,
    particles: &[Particle],
    additive: bool,
    cache: &mut KernelCache,
) -> (r: Result<(), BlobError>)
    requires
        old(cache).wf(),
    ensures
        final(cache).wf(),
        final(output).wf(),
        final(output).same_shape(*old(output)),
        r == Err::<(), BlobError>(BlobError::TooFewChannels) <==> old(output).channels() < 3,
        r == Err::<(), BlobError>(BlobError::RadiusTooLarge) <==> old(output).channels() >= 3
            && has_oversized(particles@),
        r.is_err() ==> final(output).cells() == old(output).cells(),
        r.is_ok() ==> final(output).cells() == blob_cells(old(output).cells(), particles@, additive),
        forall|r: usize| #[trigger]
            old(cache).kernels@.contains_key(r) ==> final(cache).kernels@.contains_key(r),
{
    let (h, w, ch) = output.dims();
    if ch < 3 {
        return Err(BlobError::TooFewChannels);
    }
    if !prepare_kernels(cache, particles) {
        return Err(BlobError::RadiusTooLarge);
    }
    let mut sums: SumGrid = SumGrid::seeded(output, additive);
    let ghost seeds = sums;
    proof {
        assert forall|k: (int, int, int)| #[trigger]
            sums.sums().contains_key(k) <==> output.holds(k.0, k.1, k.2) by {
            assert(sums.sums().dom().contains(k) <==> output.cells().dom().contains(k));
        }
        assert(grid_shape(sums) =~= seq![h as nat, w as nat, ch as nat]);
    }
    add_blobs(&mut sums, particles, cache, h, w, ch);
    write_sums(output, &sums);
    proof {
        let target = blob_cells(old(output).cells(), particles@, additive);
        assert forall|k: (int, int, int)| output.cells().contains_key(k) implies #[trigger]
            output.cells()[k] == target[k] by {
            assert(output.holds(k.0, k.1, k.2));
            assert(old(output).cells().contains_key(k));
            assert(seeds.sums().contains_key(k));
            assert(sums.sums().contains_key(k));
        }
        assert(output.cells() =~= target);
    }
    Ok(())
}

/// Composites the particles into `output` as soft blobs.
///
/// With `additive` set the result replaces the first three channels of the
/// buffer; without it the blobs are laid over what the buffer holds. A
/// buffer with fewer than three channels, or a particle with a radius above
/// `MAX_BLOB_RADIUS`, is rejected and the buffer is left as it is.
pub fn render_particle_blobs_singlethread(
    output: &mut PixelBuffer,
    particles: &[Particle],
    additive: bool,
) -> (r: Result<(), BlobError>)
    ensures
        final(output).wf(),
        final(output).same_shape(*old(output)),
        r == Err::<(), BlobError>(BlobError::TooFewChannels) <==> old(output).channels() < 3,
        r == Err::<(), BlobError>(BlobError::RadiusTooLarge) <==> old(output).channels() >= 3
            && has_oversized(particles@),
        r.is_err() ==> final(output).cells() == old(output).cells(),
        r.is_ok() ==> final(output).cells() == blob_cells(old(output).cells(), particles@, additive),
{
    let mut cache = KernelCache::new();
    render_particle_blobs_cached(output, particles, additive, &mut cache)
}

} // verus!
