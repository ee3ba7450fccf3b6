//! One flame particle: its state, the physics of one time step and the
//! attributes of a newly spawned particle.

use vstd::prelude::*;
use crate::fixed::{
    Fixed, HALF, ONE, floor_mod, fx_add, fx_add_spec, fx_div, fx_div_spec, fx_from_int, fx_from_int_spec,
    fx_max, fx_max_spec, fx_min, fx_min_spec, fx_mul, fx_mul_spec, fx_sub, fx_sub_spec,
};
use crate::power::{density_scale, density_scale_spec};
use crate::rng::{
    range_sample, range_sample_spec, velocity_offset_sample, velocity_offset_sample_spec,
};
use crate::trig::{TWO_PI, cosine, cosine_spec, sine, sine_spec};

verus! {

/// Shortest base lifespan in seconds: 1.5.
pub const MIN_LIFESPAN: i64 = 98304;

/// Longest base lifespan in seconds: 3.5.
pub const MAX_LIFESPAN: i64 = 229376;

/// Smallest velocity offset: 0.2.
pub const MIN_VELOCITY_OFFSET: i64 = 13107;

/// Largest velocity offset: 2.5.
pub const MAX_VELOCITY_OFFSET: i64 = 163840;

/// Smallest velocity scalar; lower inputs are raised to it.
pub const MIN_VELOCITY: i64 = 1;

/// Smallest animation speed; lower inputs are raised to it.
pub const MIN_ANIMATION_SPEED: i64 = 1;

/// Smallest effective time step in seconds: 0.01.
pub const MIN_DELTA_TIME: i64 = 655;

/// Particles spawned per column, second and unit of spawn rate: 5.
pub const SPAWN_MODIFIER: i64 = 327680;

/// Wobble amplitude as a fraction of the width: 0.08.
pub const WOBBLE_RATIO: i64 = 5243;

/// Fraction of the height, from the top, in which the per-particle ceiling lies: 0.35.
pub const TOP_TRIM_FRAC: i64 = 22938;

/// Growth of the buoyant acceleration per second of age: 0.3.
pub const ACCELERATION_FACTOR: i64 = 19661;

/// Strength of the turbulence: 0.15.
pub const TURBULENCE_STRENGTH: i64 = 9830;

/// Image heights that a particle of unit velocity factor rises per second: 1.2.
pub const RISE_RATE: i64 = 78643;

/// Advance of the turbulence phase per second: 8.
pub const TURBULENCE_RATE: i64 = 524288;

/// Ratio of the vertical to the horizontal turbulence frequency: 1.3.
pub const VERTICAL_TURBULENCE_RATIO: i64 = 85197;

/// Lower end of the horizontal velocity range: -0.5.
pub const MIN_DRIFT: i64 = -32768;

/// Upper end of the horizontal velocity range: 0.5.
pub const MAX_DRIFT: i64 = 32768;

/// Lower end of the initial brightness range: 0.8.
pub const MIN_BRIGHTNESS: i64 = 52429;

/// Upper end of the initial brightness range: 1.2.
pub const MAX_BRIGHTNESS: i64 = 78643;

/// Side length at which sizes run from 1 to 4 pixels: 64.
pub const REFERENCE_SIDE: i64 = 4194304;

/// A quarter of the reference side: 16.
pub const QUARTER_SIDE: i64 = 1048576;

/// Largest particle size on images below 32 pixels: 2.
pub const SMALL_IMAGE_CAP: i64 = 131072;

/// Divisor of the side that caps the particle size on larger images: 10.
pub const SIDE_CAP_DIVISOR: i64 = 655360;

/// Number of random draws that one new particle consumes.
pub const DRAWS_PER_PARTICLE: usize = 8;

/// The state of one flame particle. Positions are in pixels, times in
/// seconds, phases in radians.
#[derive(Clone, Copy, Debug, PartialEq, Eq, Structural)]
pub struct FlameParticle {
    pub x: Fixed,
    pub y: Fixed,
    pub age: Fixed,
    pub lifespan: Fixed,
    /// Inverse speed factor: the larger, the slower the particle rises.
    pub velocity_y: Fixed,
    pub velocity_x: Fixed,
    pub size: Fixed,
    pub wobble_phase: Fixed,
    pub turbulence_phase: Fixed,
    pub initial_brightness: Fixed,
}

/// What one frame passes to the simulation of every band: the image size
/// and the quantities derived from the caller's scalars.
#[derive(Clone, Copy, Debug, PartialEq, Eq, Structural)]
pub struct FrameEnv {
    pub width: usize,
    pub height: usize,
    /// Effective time step.
    pub dt: Fixed,
    /// Velocity scalar, at least `MIN_VELOCITY`.
    pub velocity: Fixed,
    /// Animation speed, at least `MIN_ANIMATION_SPEED`.
    pub animation_speed: Fixed,
    /// Spawn credit that every band earns in this frame.
    pub spawn_credit: Fixed,
    pub min_size: Fixed,
    pub max_size: Fixed,
    pub wobble_amplitude: Fixed,
}

/// The range from which particle sizes are drawn, by the smaller image
/// side `d`: from `max(1, d / 64)` to `max(1, d / 16)`, the upper end capped
/// at 2 below 32 pixels and at `d / 10` from 32 pixels on.
pub open spec fn size_range_spec(width: usize, height: usize) -> (Fixed, Fixed) {
    let d: usize = if width <= height { width } else { height };
    let base = fx_from_int_spec(d);
    let low = fx_max_spec(fx_div_spec(base, REFERENCE_SIDE), ONE);
    let high = fx_max_spec(fx_div_spec(base, QUARTER_SIDE), ONE);
    if d < 32 {
        (low, fx_min_spec(high, SMALL_IMAGE_CAP))
    } else {
        (low, fx_min_spec(high, fx_div_spec(base, SIDE_CAP_DIVISOR)))
    }
}

/// The time step that the physics uses: the elapsed time scaled by the cube
/// of the animation speed, at least `MIN_DELTA_TIME`.
pub open spec fn effective_delta(time_passed: Fixed, animation_speed: Fixed) -> Fixed {
    let cube = fx_mul_spec(fx_mul_spec(animation_speed, animation_speed), animation_speed);
    fx_max_spec(fx_mul_spec(time_passed, cube), MIN_DELTA_TIME)
}

/// The spawn credit of one band for one frame: width × spawn rate × time
/// step × spawn modifier × density scale.
pub open spec fn spawn_credit_spec(width: usize, height: usize, spawn_rate: Fixed, dt: Fixed) -> Fixed {
    fx_mul_spec(
        fx_mul_spec(
            fx_mul_spec(fx_mul_spec(fx_from_int_spec(width), spawn_rate), dt),
            SPAWN_MODIFIER,
        ),
        density_scale_spec(height),
    )
}

/// The frame environment for the given image size and caller scalars.
pub open spec fn frame_env_spec(
    width: usize,
    height: usize,
    time_passed: Fixed,
    spawn_rate: Fixed,
    velocity: Fixed,
    animation_speed: Fixed,
) -> FrameEnv {
    let speed = fx_max_spec(animation_speed, MIN_ANIMATION_SPEED);
    let dt = effective_delta(time_passed, animation_speed);
    FrameEnv {
        width,
        height,
        dt,
        velocity: fx_max_spec(velocity, MIN_VELOCITY),
        animation_speed: speed,
        spawn_credit: spawn_credit_spec(width, height, spawn_rate, dt),
        min_size: size_range_spec(width, height).0,
        max_size: size_range_spec(width, height).1,
        wobble_amplitude: fx_max_spec(fx_mul_spec(WOBBLE_RATIO, fx_from_int_spec(width)), ONE),
    }
}

/// A horizontal position wrapped modulo the image width.
pub open spec fn wrapped(x: Fixed, width: usize) -> Fixed {
    let w = fx_from_int_spec(width);
    if w > 0 {
        ((x as int) % (w as int)) as i64
    } else {
        x
    }
}

/// The height that a particle must stay at or below the image row of: its
/// private ceiling, the fraction `wobble_phase / 2π` of the top trim band.
pub open spec fn cutoff_spec(p: FlameParticle, height: usize) -> Fixed {
    fx_mul_spec(
        fx_div_spec(p.wobble_phase, TWO_PI),
        fx_mul_spec(fx_from_int_spec(height), TOP_TRIM_FRAC),
    )
}

/// The distance that a particle rises in one step: `1.2 × height × velocity
/// / velocity_y × dt × (1 + 0.3 × age)`, with the age after the step.
pub open spec fn rise_spec(p: FlameParticle, env: FrameEnv, age: Fixed) -> Fixed {
    let speed = fx_div_spec(
        fx_mul_spec(fx_mul_spec(fx_from_int_spec(env.height), RISE_RATE), env.velocity),
        fx_max_spec(p.velocity_y, 1),
    );
    fx_mul_spec(fx_mul_spec(speed, env.dt), fx_add_spec(ONE, fx_mul_spec(age, ACCELERATION_FACTOR)))
}

/// The particle after one time step, dead or alive.
pub open spec fn advanced(p: FlameParticle, env: FrameEnv) -> FlameParticle {
    let age = fx_add_spec(p.age, env.dt);
    let phase = fx_add_spec(p.turbulence_phase, fx_mul_spec(env.dt, TURBULENCE_RATE));
    let h = fx_from_int_spec(env.height);
    let push_x = fx_mul_spec(
        fx_mul_spec(fx_mul_spec(TURBULENCE_STRENGTH, sine_spec(phase)), h),
        env.dt,
    );
    let push_y = fx_mul_spec(
        fx_mul_spec(
            fx_mul_spec(
                fx_mul_spec(
                    TURBULENCE_STRENGTH,
                    cosine_spec(fx_mul_spec(phase, VERTICAL_TURBULENCE_RATIO)),
                ),
                h,
            ),
            env.dt,
        ),
        HALF,
    );
    let drift = fx_mul_spec(fx_mul_spec(p.velocity_x, env.dt), fx_from_int_spec(env.width));
    FlameParticle {
        x: wrapped(fx_add_spec(p.x, fx_add_spec(drift, push_x)), env.width),
        y: fx_add_spec(fx_sub_spec(p.y, rise_spec(p, env, age)), push_y),
        age,
        turbulence_phase: phase,
        ..p
    }
}

impl FlameParticle {
    /// A live particle is younger than its lifespan.
    pub open spec fn alive(self) -> bool {
        self.age < self.lifespan
    }

    /// Whether the particle stays in the simulation: it is alive and has
    /// not risen above its ceiling.
    pub open spec fn survives(self, height: usize) -> bool {
        self.alive() && self.y >= cutoff_spec(self, height)
    }
}

/// The random attributes of a new particle, as sampled.
#[derive(Clone, Copy, Debug, PartialEq, Eq, Structural)]
pub struct SpawnSamples {
    /// Lifespan at animation speed 1, in `[MIN_LIFESPAN, MAX_LIFESPAN)`.
    pub lifespan: Fixed,
    /// Column, in `[0, width)`.
    pub x: Fixed,
    /// Velocity offset, in `[MIN_VELOCITY_OFFSET, MAX_VELOCITY_OFFSET)`.
    pub velocity_offset: Fixed,
    /// Horizontal velocity, in `[MIN_DRIFT, MAX_DRIFT)`.
    pub velocity_x: Fixed,
    /// Size, in `[min_size, max_size)` of the frame.
    pub size: Fixed,
    /// Wobble phase, in `[0, 2π)`.
    pub wobble_phase: Fixed,
    /// Turbulence phase, in `[0, 2π)`.
    pub turbulence_phase: Fixed,
    /// Initial brightness, in `[MIN_BRIGHTNESS, MAX_BRIGHTNESS)`.
    pub initial_brightness: Fixed,
}

/// The samples that eight draws select, in the order lifespan, column,
/// velocity offset, horizontal velocity, size, wobble phase, turbulence
/// phase, brightness.
pub open spec fn samples_of(draws: Seq<u32>, env: FrameEnv) -> SpawnSamples {
    SpawnSamples {
        lifespan: range_sample_spec(draws[0], MIN_LIFESPAN, MAX_LIFESPAN),
        x: range_sample_spec(draws[1], 0, fx_from_int_spec(env.width)),
        velocity_offset: velocity_offset_sample_spec(
            draws[2],
            MIN_VELOCITY_OFFSET,
            MAX_VELOCITY_OFFSET,
        ),
        velocity_x: range_sample_spec(draws[3], MIN_DRIFT, MAX_DRIFT),
        size: range_sample_spec(draws[4], env.min_size, env.max_size),
        wobble_phase: range_sample_spec(draws[5], 0, TWO_PI),
        turbulence_phase: range_sample_spec(draws[6], 0, TWO_PI),
        initial_brightness: range_sample_spec(draws[7], MIN_BRIGHTNESS, MAX_BRIGHTNESS),
    }
}

/// The new particle with the given samples. It starts on the bottom row
/// with age zero; its lifespan is the sampled one divided by the animation
/// speed and its velocity factor the inverse of velocity times offset, both
/// at least one unit of the grid.
pub open spec fn newborn(s: SpawnSamples, env: FrameEnv) -> FlameParticle {
    FlameParticle {
        x: s.x,
        y: fx_sub_spec(fx_from_int_spec(env.height), ONE),
        age: 0,
        lifespan: fx_max_spec(
            fx_div_spec(s.lifespan, fx_max_spec(env.animation_speed, MIN_ANIMATION_SPEED)),
            1,
        ),
        velocity_y: fx_max_spec(
            fx_div_spec(ONE, fx_max_spec(fx_mul_spec(env.velocity, s.velocity_offset), 1)),
            1,
        ),
        velocity_x: s.velocity_x,
        size: s.size,
        wobble_phase: s.wobble_phase,
        turbulence_phase: s.turbulence_phase,
        initial_brightness: s.initial_brightness,
    }
}

/// The particle that eight draws produce.
pub open spec fn spawned(draws: Seq<u32>, env: FrameEnv) -> FlameParticle {
    newborn(samples_of(draws, env), env)
}

/// Whether `p` is a particle that some eight draws produce.
pub open spec fn is_spawn(p: FlameParticle, env: FrameEnv) -> bool {
    exists|draws: Seq<u32>| draws.len() == DRAWS_PER_PARTICLE && p == #[trigger] spawned(draws, env)
}

/// The range from which particle sizes are drawn on an image of the given size.
pub fn calculate_particle_size_range(width: usize, height: usize) -> (r: (Fixed, Fixed))
    ensures
        r == size_range_spec(width, height),
        ONE <= r.0,
{
    let d: usize = if width <= height { width } else { height };
    let base: i64 = fx_from_int(d);
    let low: i64 = fx_max(fx_div(base, REFERENCE_SIDE), ONE);
    let high: i64 = fx_max(fx_div(base, QUARTER_SIDE), ONE);
    if d < 32 {
        (low, fx_min(high, SMALL_IMAGE_CAP))
    } else {
        (low, fx_min(high, fx_div(base, SIDE_CAP_DIVISOR)))
    }
}

impl FrameEnv {
    /// The frame environment for the given image size and caller scalars.
    pub fn new(
        width: usize,
        height: usize,
        time_passed: Fixed,
        spawn_rate: Fixed,
        velocity: Fixed,
        animation_speed: Fixed,
    ) -> (env: FrameEnv)
        ensures
            env == frame_env_spec(width, height, time_passed, spawn_rate, velocity, animation_speed),
            env.dt >= MIN_DELTA_TIME,
            env.velocity >= MIN_VELOCITY,
            env.animation_speed >= MIN_ANIMATION_SPEED,
    {
        let speed: i64 = fx_max(animation_speed, MIN_ANIMATION_SPEED);
        let cube: i64 = fx_mul(fx_mul(animation_speed, animation_speed), animation_speed);
        let dt: i64 = fx_max(fx_mul(time_passed, cube), MIN_DELTA_TIME);
        let credit: i64 = fx_mul(
            fx_mul(fx_mul(fx_mul(fx_from_int(width), spawn_rate), dt), SPAWN_MODIFIER),
            density_scale(height),
        );
        let sizes: (i64, i64) = calculate_particle_size_range(width, height);
        FrameEnv {
            width,
            height,
            dt,
            velocity: fx_max(velocity, MIN_VELOCITY),
            animation_speed: speed,
            spawn_credit: credit,
            min_size: sizes.0,
            max_size: sizes.1,
            wobble_amplitude: fx_max(fx_mul(WOBBLE_RATIO, fx_from_int(width)), ONE),
        }
    }
}

/// The private ceiling of a particle.
#[verifier::when_used_as_spec(cutoff_spec)]
pub fn cutoff(p: FlameParticle, height: usize) -> (r: Fixed)
    ensures
        r == cutoff_spec(p, height),
{
    fx_mul(fx_div(p.wobble_phase, TWO_PI), fx_mul(fx_from_int(height), TOP_TRIM_FRAC))
}

/// Advances a particle by one time step.
pub fn advance(p: FlameParticle, env: &FrameEnv) -> (r: FlameParticle)
    ensures
        r == advanced(p, *env),
{
    let age: i64 = fx_add(p.age, env.dt);
    let phase: i64 = fx_add(p.turbulence_phase, fx_mul(env.dt, TURBULENCE_RATE));
    let h: i64 = fx_from_int(env.height);
    let w: i64 = fx_from_int(env.width);
    let push_x: i64 = fx_mul(fx_mul(fx_mul(TURBULENCE_STRENGTH, sine(phase)), h), env.dt);
    let push_y: i64 = fx_mul(
        fx_mul(
            fx_mul(
                fx_mul(TURBULENCE_STRENGTH, cosine(fx_mul(phase, VERTICAL_TURBULENCE_RATIO))),
                h,
            ),
            env.dt,
        ),
        HALF,
    );
    let drift: i64 = fx_mul(fx_mul(p.velocity_x, env.dt), w);
    let speed: i64 = fx_div(
        fx_mul(fx_mul(h, RISE_RATE), env.velocity),
        fx_max(p.velocity_y, 1),
    );
    let rise: i64 = fx_mul(fx_mul(speed, env.dt), fx_add(ONE, fx_mul(age, ACCELERATION_FACTOR)));
    let x_free: i64 = fx_add(p.x, fx_add(drift, push_x));
    let x: i64 = if w > 0 { floor_mod(x_free, w) } else { x_free };
    FlameParticle {
        x,
        y: fx_add(fx_sub(p.y, rise), push_y),
        age,
        lifespan: p.lifespan,
        velocity_y: p.velocity_y,
        velocity_x: p.velocity_x,
        size: p.size,
        wobble_phase: p.wobble_phase,
        turbulence_phase: phase,
        initial_brightness: p.initial_brightness,
    }
}

/// Whether a particle stays in the simulation after its step.
pub fn survives_step(p: FlameParticle, height: usize) -> (r: bool)
    ensures
        r == p.survives(height),
{
    p.age < p.lifespan && p.y >= cutoff(p, height)
}

/// The new particle with the given samples.
pub fn make_newborn(s: SpawnSamples, env: &FrameEnv) -> (p: FlameParticle)
    ensures
        p == newborn(s, *env),
        p.alive(),
        p.age == 0,
        p.velocity_y >= 1,
{
    FlameParticle {
        x: s.x,
        y: fx_sub(fx_from_int(env.height), ONE),
        age: 0,
        lifespan: fx_max(fx_div(s.lifespan, fx_max(env.animation_speed, MIN_ANIMATION_SPEED)), 1),
        velocity_y: fx_max(fx_div(ONE, fx_max(fx_mul(env.velocity, s.velocity_offset), 1)), 1),
        velocity_x: s.velocity_x,
        size: s.size,
        wobble_phase: s.wobble_phase,
        turbulence_phase: s.turbulence_phase,
        initial_brightness: s.initial_brightness,
    }
}

/// The particle that eight draws produce.
pub fn spawn_particle(draws: [u32; 8], env: &FrameEnv) -> (p: FlameParticle)
    ensures
        p == spawned(draws@, *env),
        is_spawn(p, *env),
        p.alive(),
        p.age == 0,
{
    let samples = SpawnSamples {
        lifespan: range_sample(draws[0], MIN_LIFESPAN, MAX_LIFESPAN),
        x: range_sample(draws[1], 0, fx_from_int(env.width)),
        velocity_offset: velocity_offset_sample(draws[2], MIN_VELOCITY_OFFSET, MAX_VELOCITY_OFFSET),
        velocity_x: range_sample(draws[3], MIN_DRIFT, MAX_DRIFT),
        size: range_sample(draws[4], env.min_size, env.max_size),
        wobble_phase: range_sample(draws[5], 0, TWO_PI),
        turbulence_phase: range_sample(draws[6], 0, TWO_PI),
        initial_brightness: range_sample(draws[7], MIN_BRIGHTNESS, MAX_BRIGHTNESS),
    };
    assert(draws@.len() == DRAWS_PER_PARTICLE);
    assert(samples == samples_of(draws@, *env));
    make_newborn(samples, env)
}

} // verus!
