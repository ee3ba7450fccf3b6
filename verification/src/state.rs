//! The persistent state of one simulation instance: three bands of
//! particles, the image size they were simulated for and a random source.

use vstd::prelude::*;
use crate::buffer::PixelBuffer;
use crate::compositor::{BandLook, render_particles, rendered};
use crate::fixed::Fixed;
use crate::particle::{FlameParticle, FrameEnv, is_spawn};
use crate::rng::{SimpleRng, mix_seed, mix_seed_spec};
use crate::simulator::{Band, carried, spawn_count, spawn_due, survivors};

verus! {

/// The state of one instance. Band 0 follows the low, band 1 the mid and
/// band 2 the high frequencies.
pub struct FlameState {
    pub low: Band,
    pub mid: Band,
    pub high: Band,
    pub width: usize,
    pub height: usize,
    pub rng: SimpleRng,
}

/// The looks of the three bands for one frame. A band that the frame has
/// no power for has no look: it is neither simulated nor drawn.
pub struct FrameLooks {
    pub low: Option<BandLook>,
    pub mid: Option<BandLook>,
    pub high: Option<BandLook>,
}

/// What one frame does to a band: its survivors stay in order, followed by
/// the newly spawned particles, as many as are due and fit under the cap,
/// and the accumulator carries the fractional rest of the credit.
pub open spec fn band_stepped(
    before: Seq<FlameParticle>,
    accum: Fixed,
    after: Band,
    env: FrameEnv,
) -> bool {
    let kept = survivors(before, env);
    let fresh = spawn_count(spawn_due(accum, env.spawn_credit), kept.len());
    &&& after.spawn_accum == carried(accum, env.spawn_credit)
    &&& after.particles@.len() == kept.len() + fresh
    &&& after.particles@.take(kept.len() as int) == kept
    &&& forall|i: int|
        kept.len() <= i < after.particles@.len() ==> {
            &&& is_spawn(#[trigger] after.particles@[i], env)
            &&& after.particles@[i].age == 0
        }
}

/// What one frame does to a band: a band that the frame drives is stepped,
/// any other band is left as it is.
pub open spec fn band_framed(
    before: Seq<FlameParticle>,
    accum: Fixed,
    after: Band,
    env: FrameEnv,
    driven: bool,
) -> bool {
    if driven {
        band_stepped(before, accum, after, env)
    } else {
        after.particles@ == before && after.spawn_accum == accum
    }
}

/// The image after one band is drawn, if it has a look.
pub open spec fn drawn(
    cells: Map<(int, int, int), u8>,
    ps: Seq<FlameParticle>,
    env: FrameEnv,
    look: Option<BandLook>,
) -> Map<(int, int, int), u8> {
    match look {
        Some(l) => rendered(cells, ps, env, l),
        None => cells,
    }
}

/// The image after the bands of a state are drawn, low band first.
pub open spec fn composed(
    cells: Map<(int, int, int), u8>,
    state: FlameState,
    env: FrameEnv,
    looks: FrameLooks,
) -> Map<(int, int, int), u8> {
    drawn(
        drawn(drawn(cells, state.low.particles@, env, looks.low), state.mid.particles@, env, looks.mid),
        state.high.particles@,
        env,
        looks.high,
    )
}

/// Runs update and spawn on one band and draws it, if the band has a look.
fn step_band(
    band: &mut Band,
    rng: &mut SimpleRng,
    image: &mut PixelBuffer,
    env: &FrameEnv,
    look: &Option<BandLook>,
)
    requires
        old(band).wf(),
    ensures
        final(band).wf(),
        final(rng).seed() == old(rng).seed(),
        band_framed(
            old(band).particles@,
            old(band).spawn_accum,
            *final(band),
            *env,
            look.is_some(),
        ),
        final(image).wf(),
        final(image).same_shape(*old(image)),
        final(image).cells() == drawn(old(image).cells(), final(band).particles@, *env, *look),
{
    match look {
        Some(l) => {
            band.update(env);
            band.spawn(env, rng);
            render_particles(image, &band.particles, env, l);
        },
        None => {
            let _ = image.dims();
        },
    }
}

impl FlameState {
    /// Every band is well formed.
    pub open spec fn wf(self) -> bool {
        self.low.wf() && self.mid.wf() && self.high.wf()
    }

    /// Whether the state holds no particle and no spawn credit.
    pub open spec fn is_blank(self) -> bool {
        &&& self.low.particles@.len() == 0
        &&& self.mid.particles@.len() == 0
        &&& self.high.particles@.len() == 0
        &&& self.low.spawn_accum == 0
        &&& self.mid.spawn_accum == 0
        &&& self.high.spawn_accum == 0
    }

    /// A blank state for an image of the given size. The random source is
    /// seeded with the time-derived seed mixed with the instance identifier.
    pub fn new(width: usize, height: usize, instance_id: u64, time_seed: u64) -> (s: FlameState)
        ensures
            s.wf(),
            s.is_blank(),
            s.width == width,
            s.height == height,
            s.rng.seed() == mix_seed_spec(time_seed, instance_id),
    {
        FlameState {
            low: Band::new(),
            mid: Band::new(),
            high: Band::new(),
            width,
            height,
            rng: SimpleRng::new(mix_seed(time_seed, instance_id)),
        }
    }

    /// Whether the state was made for an image of the given size.
    pub fn fits(&self, width: usize, height: usize) -> (r: bool)
        ensures
            r == (self.width == width && self.height == height),
    {
        self.width == width && self.height == height
    }

    /// The particle counts of the three bands.
    pub fn particle_counts(&self) -> (r: [usize; 3])
        ensures
            r[0] == self.low.particles@.len(),
            r[1] == self.mid.particles@.len(),
            r[2] == self.high.particles@.len(),
    {
        [self.low.particles.len(), self.mid.particles.len(), self.high.particles.len()]
    }

    /// One frame: every band that has a look is updated, spawns, and is
    /// drawn into `image` on top of what is already there, low band first.
    pub fn step(&mut self, image: &mut PixelBuffer, env: &FrameEnv, looks: &FrameLooks)
        requires
            old(self).wf(),
        ensures
            final(self).wf(),
            final(self).width == old(self).width,
            final(self).height == old(self).height,
            final(self).rng.seed() == old(self).rng.seed(),
            band_framed(
                old(self).low.particles@,
                old(self).low.spawn_accum,
                final(self).low,
                *env,
                looks.low.is_some(),
            ),
            band_framed(
                old(self).mid.particles@,
                old(self).mid.spawn_accum,
                final(self).mid,
                *env,
                looks.mid.is_some(),
            ),
            band_framed(
                old(self).high.particles@,
                old(self).high.spawn_accum,
                final(self).high,
                *env,
                looks.high.is_some(),
            ),
            final(image).wf(),
            final(image).same_shape(*old(image)),
            final(image).cells() == composed(old(image).cells(), *final(self), *env, *looks),
    {
        step_band(&mut self.low, &mut self.rng, image, env, &looks.low);
        step_band(&mut self.mid, &mut self.rng, image, env, &looks.mid);
        step_band(&mut self.high, &mut self.rng, image, env, &looks.high);
    }
}

} // verus!
