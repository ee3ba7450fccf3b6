use ledfx_flame::blur::simple_blur;
use ledfx_flame::buffer::PixelBuffer;
use ledfx_flame::engine::{flame2_process, flame2_release, get_flame_particle_counts, FlameError};
use ledfx_flame::fixed::ONE;
use ledfx_flame::simulator::MAX_PARTICLES_PER_BAND;
use ledfx_flame::state::FlameState;
use ledfx_flame::store::InstanceStore;

const TENTH: i64 = 6554;
const RED: [u8; 3] = [255, 0, 0];
const GREEN: [u8; 3] = [0, 255, 0];
const BLUE: [u8; 3] = [0, 0, 255];

fn frame(
    store: &mut InstanceStore,
    image: &mut PixelBuffer,
    powers: [i64; 3],
    spawn_rate: i64,
    blur: usize,
    id: u64,
) -> Result<(), FlameError> {
    flame2_process(
        store, image, 0, &powers, ONE, TENTH, spawn_rate, ONE, blur, id, RED, GREEN, BLUE, ONE,
        42,
    )
}

fn same(a: &PixelBuffer, b: &PixelBuffer) -> bool {
    let (h, w, ch) = a.dims();
    if b.dims() != (h, w, ch) {
        return false;
    }
    for y in 0..h {
        for x in 0..w {
            for c in 0..ch {
                if a.get(y, x, c) != b.get(y, x, c) {
                    return false;
                }
            }
        }
    }
    true
}

fn positions(state: &FlameState) -> Vec<(i64, i64)> {
    state.low.particles.iter().map(|p| (p.x, p.y)).collect()
}

#[test]
fn one_frame_lights_the_bottom_rows_only() {
    let mut store = InstanceStore::new();
    let mut image = PixelBuffer::new(64, 64, 3).unwrap();
    assert_eq!(frame(&mut store, &mut image, [ONE, 0, 0], ONE, 0, 1), Ok(()));
    assert_eq!(image.dims(), (64, 64, 3));
    let mut lit_red = 0;
    let mut lit_any = 0;
    for y in 0..64 {
        for x in 0..64 {
            let r = image.get(y, x, 0).unwrap();
            let g = image.get(y, x, 1).unwrap();
            let b = image.get(y, x, 2).unwrap();
            if r != 0 {
                lit_red += 1;
            }
            if r != 0 || g != 0 || b != 0 {
                lit_any += 1;
                assert!(y >= 56, "row {} is lit", y);
            }
        }
    }
    assert!(lit_red > 0);
    assert!(lit_any < 64 * 64 / 4);
    assert_eq!(get_flame_particle_counts(&store, 1), [32, 32, 32]);
}

#[test]
fn only_the_bands_with_a_power_are_driven() {
    let mut store = InstanceStore::new();
    let mut image = PixelBuffer::new(64, 64, 3).unwrap();
    let run = |store: &mut InstanceStore, image: &mut PixelBuffer, powers: &[i64], id: u64| {
        flame2_process(
            store, image, 0, powers, ONE, TENTH, ONE, ONE, 0, id, RED, GREEN, BLUE, ONE, 42,
        )
    };
    assert_eq!(run(&mut store, &mut image, &[ONE], 1), Ok(()));
    assert_eq!(get_flame_particle_counts(&store, 1), [32, 0, 0]);
    let mut green = 0;
    let mut red = 0;
    for y in 0..64 {
        for x in 0..64 {
            if image.get(y, x, 0) != Some(0) {
                red += 1;
            }
            if image.get(y, x, 1) != Some(0) || image.get(y, x, 2) != Some(0) {
                green += 1;
            }
        }
    }
    assert!(red > 0);
    assert_eq!(green, 0);
    assert_eq!(run(&mut store, &mut image, &[ONE, ONE], 1), Ok(()));
    let counts = get_flame_particle_counts(&store, 1);
    assert!(counts[0] > 32);
    assert_eq!(counts[1], 32);
    assert_eq!(counts[2], 0);
    assert_eq!(run(&mut store, &mut image, &[], 2), Ok(()));
    assert_eq!(get_flame_particle_counts(&store, 2), [0, 0, 0]);
    assert!(store.contains(2));
    assert_eq!(run(&mut store, &mut image, &[ONE, ONE, ONE, ONE, ONE], 3), Ok(()));
    assert_eq!(get_flame_particle_counts(&store, 3), [32, 32, 32]);
}

#[test]
fn the_frame_overwrites_what_the_buffer_held() {
    let mut store = InstanceStore::new();
    let mut image = PixelBuffer::new(16, 16, 4).unwrap();
    image.fill(200);
    assert_eq!(frame(&mut store, &mut image, [0, 0, 0], 0, 0, 1), Ok(()));
    for y in 0..16 {
        for x in 0..16 {
            for c in 0..4 {
                assert_eq!(image.get(y, x, c), Some(0));
            }
        }
    }
}

#[test]
fn too_few_channels_are_reported_and_nothing_changes() {
    let mut store = InstanceStore::new();
    let mut image = PixelBuffer::new(8, 8, 2).unwrap();
    image.fill(9);
    assert_eq!(
        frame(&mut store, &mut image, [ONE, ONE, ONE], ONE, 1, 1),
        Err(FlameError::TooFewChannels)
    );
    assert_eq!(image.get(3, 3, 1), Some(9));
    assert_eq!(store.len(), 0);
    assert!(!store.contains(1));
}

#[test]
fn empty_buffers_are_accepted() {
    let mut store = InstanceStore::new();
    let mut image = PixelBuffer::new(0, 0, 3).unwrap();
    assert_eq!(frame(&mut store, &mut image, [ONE, ONE, ONE], ONE, 2, 1), Ok(()));
    assert_eq!(get_flame_particle_counts(&store, 1), [0, 0, 0]);
    let mut flat = PixelBuffer::new(0, 10, 3).unwrap();
    assert_eq!(frame(&mut store, &mut flat, [ONE, ONE, ONE], ONE, 2, 2), Ok(()));
    assert_eq!(get_flame_particle_counts(&store, 2), [0, 0, 0]);
}

#[test]
fn particles_persist_and_the_population_stays_under_the_cap() {
    let mut store = InstanceStore::new();
    let mut image = PixelBuffer::new(32, 64, 3).unwrap();
    let mut last = 0;
    let mut frames = 0;
    while frames < 40 {
        let rate = if frames < 5 { 20 * ONE } else { 400 * ONE };
        assert_eq!(frame(&mut store, &mut image, [ONE, ONE, 0], rate, 0, 5), Ok(()));
        let counts = get_flame_particle_counts(&store, 5);
        for n in counts {
            assert!(n <= MAX_PARTICLES_PER_BAND);
        }
        if frames < 5 {
            assert!(counts[0] > last);
        }
        last = counts[0];
        let state = &store.states[&5];
        for band in [&state.low, &state.mid, &state.high] {
            for p in &band.particles {
                assert!(p.age < p.lifespan);
            }
        }
        frames += 1;
    }
    assert_eq!(last, MAX_PARTICLES_PER_BAND);
}

#[test]
fn a_new_image_size_resets_the_instance() {
    let mut store = InstanceStore::new();
    let mut small = PixelBuffer::new(32, 32, 3).unwrap();
    assert_eq!(frame(&mut store, &mut small, [ONE, 0, 0], ONE, 0, 9), Ok(()));
    assert_eq!(frame(&mut store, &mut small, [ONE, 0, 0], ONE, 0, 9), Ok(()));
    let before = get_flame_particle_counts(&store, 9);
    assert!(before[0] > 0);
    let mut large = PixelBuffer::new(64, 64, 3).unwrap();
    assert_eq!(frame(&mut store, &mut large, [ONE, 0, 0], 0, 0, 9), Ok(()));
    assert_eq!(get_flame_particle_counts(&store, 9), [0, 0, 0]);
    assert_eq!(store.states[&9].width, 64);
    assert_eq!(store.states[&9].height, 64);
    assert_eq!(store.len(), 1);
    assert_eq!(frame(&mut store, &mut small, [ONE, 0, 0], ONE, 0, 9), Ok(()));
    assert_eq!(frame(&mut store, &mut large, [ONE, 0, 0], ONE, 0, 9), Ok(()));
    assert_eq!(get_flame_particle_counts(&store, 9), [32, 32, 32]);
    for p in &store.states[&9].low.particles {
        assert_eq!(p.age, 0);
        assert_eq!(p.y, 63 * ONE);
    }
}

#[test]
fn a_wider_image_of_the_same_height_resets_too() {
    let mut store = InstanceStore::new();
    let mut a = PixelBuffer::new(16, 16, 3).unwrap();
    let mut b = PixelBuffer::new(16, 24, 3).unwrap();
    assert_eq!(frame(&mut store, &mut a, [ONE, 0, 0], 4 * ONE, 0, 9), Ok(()));
    assert!(get_flame_particle_counts(&store, 9)[0] > 0);
    assert_eq!(frame(&mut store, &mut b, [ONE, 0, 0], 0, 0, 9), Ok(()));
    assert_eq!(get_flame_particle_counts(&store, 9), [0, 0, 0]);
    assert_eq!(store.states[&9].width, 24);
    assert_eq!(store.states[&9].height, 16);
}

#[test]
fn instances_do_not_share_their_randomness() {
    let mut store = InstanceStore::new();
    let mut a = PixelBuffer::new(64, 64, 3).unwrap();
    let mut b = PixelBuffer::new(64, 64, 3).unwrap();
    let mut frames = 0;
    while frames < 5 {
        assert_eq!(frame(&mut store, &mut a, [ONE, ONE, ONE], ONE, 0, 1), Ok(()));
        assert_eq!(frame(&mut store, &mut b, [ONE, ONE, ONE], ONE, 0, 2), Ok(()));
        frames += 1;
    }
    assert_eq!(store.len(), 2);
    assert_ne!(positions(&store.states[&1]), positions(&store.states[&2]));
    assert!(!same(&a, &b));
}

#[test]
fn releasing_one_instance_leaves_the_other_alone() {
    let mut with_release = InstanceStore::new();
    let mut without = InstanceStore::new();
    let mut a = PixelBuffer::new(32, 32, 3).unwrap();
    let mut b = PixelBuffer::new(32, 32, 3).unwrap();
    let mut frames = 0;
    while frames < 3 {
        assert_eq!(frame(&mut with_release, &mut a, [ONE, 0, 0], ONE, 0, 1), Ok(()));
        assert_eq!(frame(&mut with_release, &mut a, [ONE, 0, 0], ONE, 0, 2), Ok(()));
        assert_eq!(frame(&mut without, &mut b, [ONE, 0, 0], ONE, 0, 2), Ok(()));
        frames += 1;
    }
    flame2_release(&mut with_release, 1);
    assert!(!with_release.contains(1));
    assert!(with_release.contains(2));
    assert_eq!(with_release.len(), 1);
    assert_eq!(get_flame_particle_counts(&with_release, 1), [0, 0, 0]);
    frames = 0;
    while frames < 3 {
        assert_eq!(frame(&mut with_release, &mut a, [ONE, 0, 0], ONE, 1, 2), Ok(()));
        assert_eq!(frame(&mut without, &mut b, [ONE, 0, 0], ONE, 1, 2), Ok(()));
        assert!(same(&a, &b));
        frames += 1;
    }
    assert_eq!(positions(&with_release.states[&2]), positions(&without.states[&2]));
}

#[test]
fn release_is_idempotent() {
    let mut store = InstanceStore::new();
    flame2_release(&mut store, 77);
    assert_eq!(store.len(), 0);
    let mut image = PixelBuffer::new(8, 8, 3).unwrap();
    assert_eq!(frame(&mut store, &mut image, [0, 0, 0], ONE, 0, 77), Ok(()));
    assert!(store.contains(77));
    assert!(store.release(77));
    assert!(!store.release(77));
    flame2_release(&mut store, 77);
    assert_eq!(store.len(), 0);
    assert_eq!(frame(&mut store, &mut image, [0, 0, 0], ONE, 0, 77), Ok(()));
    assert_eq!(get_flame_particle_counts(&store, 77), [1, 1, 1]);
}

#[test]
fn the_blur_is_applied_after_the_particles_are_drawn() {
    let mut plain_store = InstanceStore::new();
    let mut blurred_store = InstanceStore::new();
    let mut plain = PixelBuffer::new(32, 48, 3).unwrap();
    let mut blurred = PixelBuffer::new(32, 48, 3).unwrap();
    let mut frames = 0;
    while frames < 4 {
        assert_eq!(frame(&mut plain_store, &mut plain, [ONE, ONE, 0], ONE, 0, 3), Ok(()));
        assert_eq!(frame(&mut blurred_store, &mut blurred, [ONE, ONE, 0], ONE, 2, 3), Ok(()));
        frames += 1;
    }
    assert!(!same(&plain, &blurred));
    simple_blur(&mut plain, 2);
    assert!(same(&plain, &blurred));
}

#[test]
fn checkout_hands_out_a_fitting_state_and_replaces_any_other() {
    let mut store = InstanceStore::new();
    let fresh = store.checkout(4, 10, 20, 1);
    assert_eq!((fresh.width, fresh.height), (10, 20));
    assert_eq!(fresh.particle_counts(), [0, 0, 0]);
    assert!(!store.contains(4));
    let mut image = PixelBuffer::new(20, 10, 3).unwrap();
    store.checkin(4, fresh);
    assert_eq!(frame(&mut store, &mut image, [0, 0, 0], 4 * ONE, 0, 4), Ok(()));
    let counts = get_flame_particle_counts(&store, 4);
    assert!(counts[0] > 0);
    let kept = store.checkout(4, 10, 20, 1);
    assert_eq!(kept.particle_counts(), counts);
    assert!(kept.fits(10, 20));
    assert!(!kept.fits(20, 10));
    store.checkin(4, kept);
    let reset = store.checkout(4, 20, 10, 1);
    assert_eq!(reset.particle_counts(), [0, 0, 0]);
    assert_eq!((reset.width, reset.height), (20, 10));
    assert_eq!(store.len(), 0);
}
