use ledfx_flame::buffer::PixelBuffer;
use ledfx_flame::color::Hsv;
use ledfx_flame::compositor::{
    blend, clip_span, draw_splat, falloff_weight, make_splat, render_particles, tint, BandLook,
    Splat,
};
use ledfx_flame::fixed::{HALF, ONE};
use ledfx_flame::particle::{advance, FlameParticle, FrameEnv};

fn reference_env() -> FrameEnv {
    FrameEnv::new(64, 64, 6554, ONE, ONE, ONE)
}

fn riser() -> FlameParticle {
    FlameParticle {
        x: 10 * ONE,
        y: 63 * ONE,
        age: 0,
        lifespan: 2 * ONE,
        velocity_y: ONE,
        velocity_x: 16384,
        size: 2 * ONE,
        wobble_phase: ONE,
        turbulence_phase: 0,
        initial_brightness: ONE,
    }
}

fn disc() -> Splat {
    Splat { xi: 2, yi: 2, reach: 2, radius_sq: 4 * ONE, red: 200, green: 100, blue: 50 }
}

#[test]
fn band_look_values() {
    let env = reference_env();
    let loud = BandLook::new(ONE, ONE, [255, 100, 50], &env);
    assert_eq!(loud.base, Hsv { h: 2664, s: 52685, v: ONE });
    assert_eq!(loud.wobble, 1275093);
    assert_eq!(loud.scale, 157286);
    let silent = BandLook::new(0, ONE, [0, 0, 255], &env);
    assert_eq!(silent.base, Hsv { h: 43690, s: ONE, v: ONE });
    assert_eq!(silent.wobble, 335552);
    assert_eq!(silent.scale, ONE);
}

#[test]
fn falloff_is_quadratic_inside_the_circle_and_zero_outside() {
    assert_eq!(falloff_weight(0, 4 * ONE), ONE);
    assert_eq!(falloff_weight(1, 4 * ONE), 49152);
    assert_eq!(falloff_weight(2, 4 * ONE), 32768);
    assert_eq!(falloff_weight(3, 4 * ONE), 16384);
    assert_eq!(falloff_weight(4, 4 * ONE), 0);
    assert_eq!(falloff_weight(5, 4 * ONE), 0);
    assert_eq!(falloff_weight(0, 0), 0);
    assert_eq!(falloff_weight(0, -7), 0);
    assert_eq!(falloff_weight(1, 150000), 36903);
    assert_eq!(falloff_weight(2, 150000), 8270);
    assert_eq!(falloff_weight(3, 150000), 0);
    assert_eq!(falloff_weight(u128::MAX, ONE), 0);
}

#[test]
fn blending_adds_and_saturates() {
    assert_eq!(blend(0, 200, ONE), 200);
    assert_eq!(blend(0, 200, 49152), 150);
    assert_eq!(blend(0, 200, 0), 0);
    assert_eq!(blend(250, 200, ONE), 255);
    assert_eq!(blend(100, 255, HALF), 227);
    assert_eq!(blend(255, 255, ONE), 255);
    assert_eq!(blend(10, 200, 5 * ONE), 210);
    assert_eq!(blend(10, 200, -ONE), 10);
    assert_eq!(tint(200, HALF), 100);
    assert_eq!(tint(200, 2 * ONE), 255);
    assert_eq!(tint(200, -ONE), 0);
    assert_eq!(tint(255, 65535), 254);
}

#[test]
fn spans_are_clipped_to_the_image() {
    assert_eq!(clip_span(-3, 4, 10), (0, 4));
    assert_eq!(clip_span(2, 5, 10), (2, 5));
    assert_eq!(clip_span(8, 15, 10), (8, 10));
    assert_eq!(clip_span(12, 15, 10), (10, 10));
    assert_eq!(clip_span(-9, -2, 10), (0, 0));
    assert_eq!(clip_span(5, 2, 10), (5, 5));
    assert_eq!(clip_span(-1, 1, 0), (0, 0));
}

#[test]
fn splat_draws_a_disc_with_falloff() {
    let mut image = PixelBuffer::new(5, 5, 4).unwrap();
    draw_splat(&mut image, &disc());
    let red = [
        [0, 0, 0, 0, 0],
        [0, 100, 150, 100, 0],
        [0, 150, 200, 150, 0],
        [0, 100, 150, 100, 0],
        [0, 0, 0, 0, 0],
    ];
    for y in 0..5 {
        for x in 0..5 {
            assert_eq!(image.get(y, x, 0), Some(red[y][x]));
            assert_eq!(image.get(y, x, 1), Some(red[y][x] / 2));
            assert_eq!(image.get(y, x, 3), Some(0));
        }
    }
    assert_eq!(image.get(2, 2, 2), Some(50));
    assert_eq!(image.get(2, 1, 2), Some(37));
    assert_eq!(image.get(1, 1, 2), Some(25));
}

#[test]
fn splat_adds_to_what_is_there_and_saturates() {
    let mut image = PixelBuffer::new(5, 5, 3).unwrap();
    image.fill(100);
    draw_splat(&mut image, &disc());
    assert_eq!(image.get(2, 2, 0), Some(255));
    assert_eq!(image.get(2, 1, 0), Some(250));
    assert_eq!(image.get(1, 1, 0), Some(200));
    assert_eq!(image.get(0, 0, 0), Some(100));
    assert_eq!(image.get(2, 2, 1), Some(200));
    draw_splat(&mut image, &disc());
    assert_eq!(image.get(2, 1, 0), Some(255));
    assert_eq!(image.get(1, 1, 0), Some(255));
    assert_eq!(image.get(2, 2, 1), Some(255));
    assert_eq!(image.get(0, 0, 0), Some(100));
}

#[test]
fn splat_is_clipped_at_the_border() {
    let mut image = PixelBuffer::new(4, 4, 3).unwrap();
    let mut s = disc();
    s.xi = -1;
    s.yi = -1;
    draw_splat(&mut image, &s);
    assert_eq!(image.get(0, 0, 0), Some(100));
    assert_eq!(image.get(0, 1, 0), Some(0));
    assert_eq!(image.get(1, 1, 0), Some(0));
    let mut far = disc();
    far.xi = 4;
    far.yi = 3;
    draw_splat(&mut image, &far);
    assert_eq!(image.get(3, 3, 0), Some(150));
    assert_eq!(image.get(2, 3, 0), Some(100));
    assert_eq!(image.get(3, 2, 0), Some(0));
    let mut gone = disc();
    gone.xi = 1000;
    gone.yi = -1000;
    let before = image.duplicate();
    draw_splat(&mut image, &gone);
    assert_eq!(image.get(3, 3, 0), before.get(3, 3, 0));
    assert_eq!(image.get(0, 0, 0), before.get(0, 0, 0));
}

#[test]
fn splat_on_a_thin_image_draws_the_channels_that_exist() {
    let mut image = PixelBuffer::new(5, 5, 2).unwrap();
    draw_splat(&mut image, &disc());
    assert_eq!(image.get(2, 2, 0), Some(200));
    assert_eq!(image.get(2, 2, 1), Some(100));
    assert_eq!(image.get(2, 2, 2), None);
    let mut none = PixelBuffer::new(5, 5, 0).unwrap();
    draw_splat(&mut none, &disc());
    assert_eq!(none.dims(), (5, 5, 0));
}

#[test]
fn splat_without_size_draws_nothing() {
    let mut image = PixelBuffer::new(5, 5, 3).unwrap();
    let mut s = disc();
    s.reach = -1;
    draw_splat(&mut image, &s);
    s.reach = 0;
    s.radius_sq = 0;
    draw_splat(&mut image, &s);
    for y in 0..5 {
        for x in 0..5 {
            assert_eq!(image.get(y, x, 0), Some(0));
        }
    }
    s.radius_sq = 1;
    draw_splat(&mut image, &s);
    assert_eq!(image.get(2, 2, 0), Some(200));
    assert_eq!(image.get(2, 1, 0), Some(0));
}

#[test]
fn particle_footprint_values() {
    let env = reference_env();
    let look = BandLook::new(ONE, ONE, [255, 100, 50], &env);
    let fresh = make_splat(riser(), &env, &look);
    assert_eq!(
        fresh,
        Splat { xi: 26, yi: 62, reach: 1, radius_sq: 259693, red: 254, green: 99, blue: 50 }
    );
    let moved = make_splat(advance(riser(), &env), &env, &look);
    assert_eq!(
        moved,
        Splat { xi: 29, yi: 43, reach: 1, radius_sq: 224690, red: 235, green: 82, blue: 42 }
    );
}

#[test]
fn rendering_skips_dead_particles() {
    let env = reference_env();
    let look = BandLook::new(ONE, ONE, [255, 100, 50], &env);
    let mut dead = riser();
    dead.age = dead.lifespan;
    let mut image = PixelBuffer::new(64, 64, 3).unwrap();
    render_particles(&mut image, &vec![dead], &env, &look);
    for y in 0..64 {
        for x in 0..64 {
            assert_eq!(image.get(y, x, 0), Some(0));
        }
    }
    render_particles(&mut image, &vec![dead, riser(), dead], &env, &look);
    assert_eq!(image.get(62, 26, 0), Some(254));
    assert_eq!(image.get(62, 26, 1), Some(99));
    assert_eq!(image.get(62, 26, 2), Some(50));
    assert_eq!(image.get(62, 25, 0), Some(189));
    assert_eq!(image.get(61, 25, 0), Some(125));
    assert_eq!(image.get(60, 26, 0), Some(0));
    let mut twice = PixelBuffer::new(64, 64, 3).unwrap();
    render_particles(&mut twice, &vec![riser(), riser()], &env, &look);
    assert_eq!(twice.get(62, 26, 0), Some(255));
    assert_eq!(twice.get(62, 26, 1), Some(198));
    assert_eq!(twice.get(61, 25, 0), Some(250));
}
