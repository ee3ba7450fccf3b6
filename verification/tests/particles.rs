use ledfx_flame::fixed::{HALF, ONE};
use ledfx_flame::particle::{
    advance, calculate_particle_size_range, cutoff, spawn_particle, survives_step, FlameParticle,
    FrameEnv,
};
use ledfx_flame::rng::SimpleRng;
use ledfx_flame::simulator::{spawn_from, update_particles, Band, MAX_PARTICLES_PER_BAND};

fn reference_env() -> FrameEnv {
    FrameEnv::new(64, 64, 6554, ONE, ONE, ONE)
}

fn riser() -> FlameParticle {
    FlameParticle {
        x: 10 * ONE,
        y: 63 * ONE,
        age: 0,
        lifespan: 2 * ONE,
        velocity_y: ONE,
        velocity_x: 16384,
        size: 2 * ONE,
        wobble_phase: ONE,
        turbulence_phase: 0,
        initial_brightness: ONE,
    }
}

#[test]
fn size_range_follows_the_smaller_side() {
    assert_eq!(calculate_particle_size_range(64, 64), (ONE, 4 * ONE));
    assert_eq!(calculate_particle_size_range(16, 16), (ONE, ONE));
    assert_eq!(calculate_particle_size_range(32, 32), (ONE, 2 * ONE));
    assert_eq!(calculate_particle_size_range(200, 100), (102400, 409600));
    assert_eq!(calculate_particle_size_range(31, 500), (ONE, 126976));
    assert_eq!(calculate_particle_size_range(640, 480), (491520, 1966080));
    assert_eq!(calculate_particle_size_range(0, 0), (ONE, ONE));
}

#[test]
fn frame_environment_values() {
    let env = reference_env();
    assert_eq!(env.width, 64);
    assert_eq!(env.height, 64);
    assert_eq!(env.dt, 6554);
    assert_eq!(env.velocity, ONE);
    assert_eq!(env.animation_speed, ONE);
    assert_eq!(env.spawn_credit, 2097280);
    assert_eq!(env.min_size, ONE);
    assert_eq!(env.max_size, 4 * ONE);
    assert_eq!(env.wobble_amplitude, 335552);
}

#[test]
fn frame_environment_floors_its_inputs() {
    let env = FrameEnv::new(32, 16, ONE, 2 * ONE, 0, HALF);
    assert_eq!(env.dt, 8192);
    assert_eq!(env.velocity, 1);
    assert_eq!(env.animation_speed, HALF);
    assert_eq!(env.spawn_credit, 1141040);
    assert_eq!(env.wobble_amplitude, 167776);
    let still = FrameEnv::new(64, 64, 0, ONE, ONE, ONE);
    assert_eq!(still.dt, 655);
    let frozen = FrameEnv::new(64, 64, ONE, ONE, ONE, -5);
    assert_eq!(frozen.animation_speed, 1);
    assert_eq!(frozen.dt, 655);
}

#[test]
fn one_step_moves_a_particle_up() {
    let env = reference_env();
    let q = advance(riser(), &env);
    assert_eq!(q.x, 805244);
    assert_eq!(q.y, 3626241);
    assert_eq!(q.age, 6554);
    assert_eq!(q.turbulence_phase, 52432);
    assert_eq!(q.lifespan, 2 * ONE);
    assert_eq!(q.velocity_y, ONE);
    assert_eq!(q.size, 2 * ONE);
    assert_eq!(cutoff(q, 64), 233636);
    assert!(survives_step(q, 64));
    let q2 = advance(q, &env);
    assert_eq!(q2.x, 972959);
    assert_eq!(q2.y, 3077355);
    assert_eq!(q2.age, 13108);
    assert_eq!(q2.turbulence_phase, 104864);
}

#[test]
fn a_step_wraps_the_column_and_can_kill() {
    let env = reference_env();
    let p = FlameParticle {
        x: 63 * ONE + 60000,
        y: 5 * ONE,
        age: 2 * ONE - 100,
        lifespan: 2 * ONE,
        velocity_y: HALF,
        velocity_x: 32767,
        size: 2 * ONE,
        wobble_phase: 3 * ONE,
        turbulence_phase: 123456,
        initial_brightness: 70000,
    };
    let q = advance(p, &env);
    assert_eq!(q.x, 231956);
    assert_eq!(q.y, -1342331);
    assert_eq!(q.age, 137526);
    assert_eq!(q.turbulence_phase, 175888);
    assert_eq!(cutoff(q, 64), 700930);
    assert!(!survives_step(q, 64));
}

#[test]
fn a_particle_dies_of_age_or_above_its_ceiling() {
    let mut old = riser();
    old.age = old.lifespan;
    assert!(!survives_step(old, 64));
    old.age = old.lifespan - 1;
    assert!(survives_step(old, 64));
    let mut high = riser();
    high.y = cutoff(high, 64) - 1;
    assert!(!survives_step(high, 64));
    high.y = cutoff(high, 64);
    assert!(survives_step(high, 64));
}

#[test]
fn spawned_particle_values() {
    let env = reference_env();
    let p = spawn_particle(
        [
            0x8000_0000,
            0x4000_0000,
            0x8000_0000,
            0xc000_0000,
            0x8000_0000,
            0x4000_0000,
            0x2000_0000,
            0xffff_ffff,
        ],
        &env,
    );
    assert_eq!(
        p,
        FlameParticle {
            x: 1048576,
            y: 4128768,
            age: 0,
            lifespan: 163840,
            velocity_y: 48545,
            velocity_x: 16384,
            size: 163840,
            wobble_phase: 102943,
            turbulence_phase: 51471,
            initial_brightness: 78642,
        }
    );
    let low = spawn_particle([0; 8], &env);
    assert_eq!(
        low,
        FlameParticle {
            x: 0,
            y: 4128768,
            age: 0,
            lifespan: 98304,
            velocity_y: 327685,
            velocity_x: -32768,
            size: 65536,
            wobble_phase: 0,
            turbulence_phase: 0,
            initial_brightness: 52429,
        }
    );
}

#[test]
fn spawned_particle_scales_with_speed_and_velocity() {
    let env = FrameEnv::new(32, 16, ONE, 2 * ONE, 0, HALF);
    let p = spawn_particle([0xffff_ffff; 8], &env);
    assert_eq!(
        p,
        FlameParticle {
            x: 2097151,
            y: 983040,
            age: 0,
            lifespan: 458750,
            velocity_y: 2147483648,
            velocity_x: 32767,
            size: 65536,
            wobble_phase: 411773,
            turbulence_phase: 411773,
            initial_brightness: 78642,
        }
    );
}

#[test]
fn random_spawns_lie_in_their_ranges() {
    let env = reference_env();
    let mut rng = SimpleRng::new(99);
    let mut columns = std::collections::HashSet::new();
    let mut i = 0;
    while i < 500 {
        let p = spawn_from(&mut rng, &env);
        assert_eq!(p.age, 0);
        assert_eq!(p.y, 63 * ONE);
        assert!(p.x >= 0 && p.x < 64 * ONE);
        assert!(p.lifespan >= 98304 && p.lifespan < 229376);
        assert!(p.velocity_y > 0);
        assert!(p.velocity_x >= -32768 && p.velocity_x < 32768);
        assert!(p.size >= ONE && p.size < 4 * ONE);
        assert!(p.wobble_phase >= 0 && p.wobble_phase < 411774);
        assert!(p.turbulence_phase >= 0 && p.turbulence_phase < 411774);
        assert!(p.initial_brightness >= 52429 && p.initial_brightness < 78643);
        columns.insert(p.x / ONE);
        i += 1;
    }
    assert!(columns.len() > 32);
}

#[test]
fn update_keeps_the_survivors_in_order() {
    let env = reference_env();
    let mut dying = riser();
    dying.age = dying.lifespan - 10;
    let mut second = riser();
    second.x = 20 * ONE;
    let mut particles = vec![riser(), dying, second, dying];
    update_particles(&mut particles, &env);
    assert_eq!(particles, vec![advance(riser(), &env), advance(second, &env)]);
    for p in &particles {
        assert!(p.age < p.lifespan);
    }
    let mut none: Vec<FlameParticle> = Vec::new();
    update_particles(&mut none, &env);
    assert!(none.is_empty());
}

#[test]
fn spawn_turns_whole_credit_into_particles_and_carries_the_rest() {
    let env = reference_env();
    let mut rng = SimpleRng::new(3);
    let mut band = Band::new();
    band.spawn(&env, &mut rng);
    assert_eq!(band.particles.len(), 32);
    assert_eq!(band.spawn_accum, 128);
    band.spawn(&env, &mut rng);
    assert_eq!(band.particles.len(), 64);
    assert_eq!(band.spawn_accum, 256);
    for p in &band.particles {
        assert_eq!(p.age, 0);
    }
}

#[test]
fn spawn_conserves_fractional_credit_over_many_frames() {
    let env = FrameEnv::new(3, 64, 6554, HALF / 8, ONE, ONE);
    assert_eq!(env.spawn_credit, 6140);
    let mut rng = SimpleRng::new(3);
    let mut band = Band::new();
    let mut frames: i64 = 0;
    while frames < 1000 {
        band.spawn(&env, &mut rng);
        frames += 1;
        assert_eq!(
            band.particles.len() as i64 * ONE + band.spawn_accum,
            frames * env.spawn_credit
        );
        assert!(band.spawn_accum >= 0 && band.spawn_accum < ONE);
    }
    assert_eq!(band.particles.len(), 93);
}

#[test]
fn spawn_never_passes_the_cap() {
    let env = FrameEnv::new(640, 64, ONE, 100 * ONE, ONE, ONE);
    let mut rng = SimpleRng::new(3);
    let mut band = Band::new();
    band.spawn(&env, &mut rng);
    assert_eq!(band.particles.len(), MAX_PARTICLES_PER_BAND);
    band.spawn(&env, &mut rng);
    assert_eq!(band.particles.len(), MAX_PARTICLES_PER_BAND);
    band.particles.truncate(4000);
    band.spawn(&env, &mut rng);
    assert_eq!(band.particles.len(), 4096);
}

#[test]
fn negative_credit_spawns_nothing() {
    let env = FrameEnv::new(64, 64, 6554, -ONE, ONE, ONE);
    assert_eq!(env.spawn_credit, -2097280);
    let mut rng = SimpleRng::new(3);
    let mut band = Band::new();
    band.spawn(&env, &mut rng);
    assert_eq!(band.particles.len(), 0);
    assert_eq!(band.spawn_accum, -2097280);
}
