//! The two entry points of the effect: the per-frame simulate-and-render
//! call and the release of an instance.

use vstd::prelude::*;
use crate::blur::{blurred, simple_blur};
use crate::buffer::{PixelBuffer, uniform_cells};
use crate::compositor::{BandLook, band_look_spec};
use crate::fixed::Fixed;
use crate::particle::{FlameParticle, FrameEnv, frame_env_spec};
use crate::rng::{lemma_seeds_differ, mix_seed_spec};
use crate::simulator::{Band, spawn_count, spawn_due};
use crate::state::{FlameState, FrameLooks, band_framed, band_stepped, composed};
use crate::store::InstanceStore;

verus! {

/// Why a frame was not rendered.
#[derive(Clone, Copy, Debug, PartialEq, Eq, Structural)]
pub enum FlameError {
    /// The buffer has fewer than three channels.
    TooFewChannels,
}

/// The look of band `band`, if the frame has a power for it.
pub open spec fn band_look_of(
    audio_pow: Seq<Fixed>,
    band: int,
    intensity: Fixed,
    color: Seq<u8>,
    env: FrameEnv,
) -> Option<BandLook> {
    if band < audio_pow.len() {
        Some(band_look_spec(audio_pow[band], intensity, color[0], color[1], color[2], env))
    } else {
        None
    }
}

/// The looks of the bands for the given powers, intensity and base
/// colours. The powers are those of the low, mid and high band in this
/// order; a band without a power has no look.
pub open spec fn frame_looks_spec(
    audio_pow: Seq<Fixed>,
    intensity: Fixed,
    low_color: Seq<u8>,
    mid_color: Seq<u8>,
    high_color: Seq<u8>,
    env: FrameEnv,
) -> FrameLooks {
    FrameLooks {
        low: band_look_of(audio_pow, 0, intensity, low_color, env),
        mid: band_look_of(audio_pow, 1, intensity, mid_color, env),
        high: band_look_of(audio_pow, 2, intensity, high_color, env),
    }
}

/// The particles of band `band` that an instance brings into a frame on an
/// image of the given size: those it holds if it exists and fits, none otherwise.
pub open spec fn carried_particles(
    store: InstanceStore,
    id: u64,
    width: usize,
    height: usize,
    band: int,
) -> Seq<FlameParticle> {
    if store.has_fitting(id, width, height) {
        let s = store.states@[id];
        if band == 0 {
            s.low.particles@
        } else if band == 1 {
            s.mid.particles@
        } else {
            s.high.particles@
        }
    } else {
        Seq::empty()
    }
}

/// The spawn credit of band `band` that an instance brings into a frame.
pub open spec fn carried_credit(store: InstanceStore, id: u64, width: usize, height: usize, band: int) -> Fixed {
    if store.has_fitting(id, width, height) {
        let s = store.states@[id];
        if band == 0 {
            s.low.spawn_accum
        } else if band == 1 {
            s.mid.spawn_accum
        } else {
            s.high.spawn_accum
        }
    } else {
        0
    }
}

/// The seed of the random source that an instance uses in a frame on an
/// image of the given size: the seed it was made from if it exists and
/// fits, the time-derived seed mixed with its identifier otherwise.
pub open spec fn frame_seed(
    store: InstanceStore,
    id: u64,
    width: usize,
    height: usize,
    time_seed: u64,
) -> u64 {
    if store.has_fitting(id, width, height) {
        store.states@[id].rng.seed()
    } else {
        mix_seed_spec(time_seed, id)
    }
}

/// Two different instances that are made, or made anew, with the same
/// time-derived seed get random sources with different seeds.
pub proof fn lemma_new_instances_seeded_apart(
    store: InstanceStore,
    first: u64,
    second: u64,
    width: usize,
    height: usize,
    time_seed: u64,
)
    requires
        first != second,
        !store.has_fitting(first, width, height),
        !store.has_fitting(second, width, height),
    ensures
        frame_seed(store, first, width, height, time_seed) != frame_seed(
            store,
            second,
            width,
            height,
            time_seed,
        ),
{
    lemma_seeds_differ(time_seed, first, second);
}

/// An instance that is unknown, or was simulated for another image size,
/// brings nothing into a frame: after the frame each of its bands holds only
/// particles born in that frame, as many as the frame's credit alone makes due.
pub proof fn lemma_resize_starts_afresh(
    store: InstanceStore,
    id: u64,
    width: usize,
    height: usize,
    band: int,
    after: Band,
    env: FrameEnv,
)
    requires
        !store.has_fitting(id, width, height),
        band_stepped(
            carried_particles(store, id, width, height, band),
            carried_credit(store, id, width, height, band),
            after,
            env,
        ),
    ensures
        carried_particles(store, id, width, height, band).len() == 0,
        after.particles@.len() == spawn_count(spawn_due(0, env.spawn_credit), 0),
        forall|i: int| 0 <= i < after.particles@.len() ==> (#[trigger] after.particles@[i]).age == 0,
{
}

/// The particle counts of the three bands of an instance, all zero for an
/// unknown identifier.
pub fn get_flame_particle_counts(store: &InstanceStore, instance_id: u64) -> (r: [usize; 3])
    ensures
        store.states@.contains_key(instance_id) ==> {
            &&& r[0] == store.states@[instance_id].low.particles@.len()
            &&& r[1] == store.states@[instance_id].mid.particles@.len()
            &&& r[2] == store.states@[instance_id].high.particles@.len()
        },
        !store.states@.contains_key(instance_id) ==> r[0] == 0 && r[1] == 0 && r[2] == 0,
{
    store.particle_counts(instance_id)
}

/// Removes the state of an instance. Releasing an unknown identifier does
/// nothing; every other instance is left as it is.
pub fn flame2_release(store: &mut InstanceStore, instance_id: u64)
    ensures
        final(store).states@ == old(store).states@.remove(instance_id),
        old(store).wf() ==> final(store).wf(),
{
    let _ = store.release(instance_id);
}

/// Advances the instance `instance_id` by one frame and renders it.
///
/// A buffer with fewer than three channels is rejected and nothing changes.
/// Otherwise the instance's state is looked up, made anew if it is missing
/// or was made for another image size, and stepped once; the buffer is
/// cleared, the three bands are drawn into it and `blur_amount` blur passes
/// are applied. No other instance is touched.
///
/// All scalars are fixed-point numbers: `audio_pow` holds the powers of the
/// low, mid and high band, roughly between 0 and 1. A band for which it
/// holds no power is left as it is and not drawn; powers beyond the third
/// are not looked at. `time_passed` is the
/// time since the last frame in seconds; `velocity` and `animation_speed`
/// are raised to their minimum where they are below it. The three colours
/// are the base colours of the bands. `time_seed` seeds the random source
/// of a state that is made in this call and is not looked at otherwise;
/// `_audio_bar` is not used.
pub fn flame2_process(
    store: &mut InstanceStore,
    image: &mut PixelBuffer,
    _audio_bar: Fixed,
    audio_pow: &[Fixed],
    intensity: Fixed,
    time_passed: Fixed,
    spawn_rate: Fixed,
    velocity: Fixed,
    blur_amount: usize,
    instance_id: u64,
    low_color: [u8; 3],
    mid_color: [u8; 3],
    high_color: [u8; 3],
    animation_speed: Fixed,
    time_seed: u64,
) -> (r: Result<(), FlameError>)
    requires
        old(store).wf(),
    ensures
        final(store).wf(),
        final(image).wf(),
        final(image).same_shape(*old(image)),
        r.is_err() <==> old(image).channels() < 3,
        r.is_err() ==> {
            &&& r == Err::<(), FlameError>(FlameError::TooFewChannels)
            &&& final(store).states@ == old(store).states@
            &&& final(image).cells() == old(image).cells()
        },
        r.is_ok() ==> {
            let width = old(image).cols() as usize;
            let height = old(image).rows() as usize;
            let env = frame_env_spec(
                width,
                height,
                time_passed,
                spawn_rate,
                velocity,
                animation_speed,
            );
            let looks = frame_looks_spec(
                audio_pow@,
                intensity,
                low_color@,
                mid_color@,
                high_color@,
                env,
            );
            let state = final(store).states@[instance_id];
            &&& final(store).states@.contains_key(instance_id)
            &&& final(store).states@.remove(instance_id) == old(store).states@.remove(instance_id)
            &&& state.width == width
            &&& state.height == height
            &&& state.rng.seed() == frame_seed(*old(store), instance_id, width, height, time_seed)
            &&& band_framed(
                carried_particles(*old(store), instance_id, width, height, 0),
                carried_credit(*old(store), instance_id, width, height, 0),
                state.low,
                env,
                audio_pow@.len() > 0,
            )
            &&& band_framed(
                carried_particles(*old(store), instance_id, width, height, 1),
                carried_credit(*old(store), instance_id, width, height, 1),
                state.mid,
                env,
                audio_pow@.len() > 1,
            )
            &&& band_framed(
                carried_particles(*old(store), instance_id, width, height, 2),
                carried_credit(*old(store), instance_id, width, height, 2),
                state.high,
                env,
                audio_pow@.len() > 2,
            )
            &&& final(image).cells() == blurred(
                composed(
                    uniform_cells(old(image).rows(), old(image).cols(), old(image).channels(), 0),
                    state,
                    env,
                    looks,
                ),
                old(image).rows(),
                old(image).cols(),
                old(image).channels(),
                blur_amount as nat,
            )
        },
{
    let (height, width, channels) = image.dims();
    if channels < 3 {
        return Err(FlameError::TooFewChannels);
    }
    let env: FrameEnv = FrameEnv::new(
        width,
        height,
        time_passed,
        spawn_rate,
        velocity,
        animation_speed,
    );
    let bands: usize = audio_pow.len();
    let looks = FrameLooks {
        low: if bands > 0 {
            Some(BandLook::new(audio_pow[0], intensity, low_color, &env))
        } else {
            None
        },
        mid: if bands > 1 {
            Some(BandLook::new(audio_pow[1], intensity, mid_color, &env))
        } else {
            None
        },
        high: if bands > 2 {
            Some(BandLook::new(audio_pow[2], intensity, high_color, &env))
        } else {
            None
        },
    };
    run_frame(store, image, &env, &looks, blur_amount, instance_id, time_seed);
    Ok(())
}

/// The frame proper, for a buffer with at least three channels and a given
/// environment: clear, step the instance, blur.
#[verifier::rlimit(40)]
fn run_frame(
    store: &mut InstanceStore,
    image: &mut PixelBuffer,
    env: &FrameEnv,
    looks: &FrameLooks,
    blur_amount: usize,
    instance_id: u64,
    time_seed: u64,
)
    requires
        old(store).wf(),
    ensures
        final(store).wf(),
        final(image).wf(),
        final(image).same_shape(*old(image)),
        final(store).states@.contains_key(instance_id),
        final(store).states@.remove(instance_id) == old(store).states@.remove(instance_id),
        final(store).states@[instance_id].width == env.width,
        final(store).states@[instance_id].height == env.height,
        final(store).states@[instance_id].rng.seed() == frame_seed(
            *old(store),
            instance_id,
            env.width,
            env.height,
            time_seed,
        ),
        band_framed(
            carried_particles(*old(store), instance_id, env.width, env.height, 0),
            carried_credit(*old(store), instance_id, env.width, env.height, 0),
            final(store).states@[instance_id].low,
            *env,
            looks.low.is_some(),
        ),
        band_framed(
            carried_particles(*old(store), instance_id, env.width, env.height, 1),
            carried_credit(*old(store), instance_id, env.width, env.height, 1),
            final(store).states@[instance_id].mid,
            *env,
            looks.mid.is_some(),
        ),
        band_framed(
            carried_particles(*old(store), instance_id, env.width, env.height, 2),
            carried_credit(*old(store), instance_id, env.width, env.height, 2),
            final(store).states@[instance_id].high,
            *env,
            looks.high.is_some(),
        ),
        final(image).cells() == blurred(
            composed(
                uniform_cells(old(image).rows(), old(image).cols(), old(image).channels(), 0),
                final(store).states@[instance_id],
                *env,
                *looks,
            ),
            old(image).rows(),
            old(image).cols(),
            old(image).channels(),
            blur_amount as nat,
        ),
{
    image.fill(0);
    let mut state: FlameState = store.checkout(instance_id, env.width, env.height, time_seed);
    proof {
        if !old(store).has_fitting(instance_id, env.width, env.height) {
            assert(state.low.particles@ =~= Seq::<FlameParticle>::empty());
            assert(state.mid.particles@ =~= Seq::<FlameParticle>::empty());
            assert(state.high.particles@ =~= Seq::<FlameParticle>::empty());
        }
    }
    state.step(image, env, looks);
    simple_blur(image, blur_amount);
    store.checkin(instance_id, state);
    proof {
        assert(final(store).states@.remove(instance_id) =~= old(store).states@.remove(instance_id));
    }
}

} // verus!
