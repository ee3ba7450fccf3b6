use ledfx_flame::fixed::{
    floor_div, fx_add, fx_div, fx_floor, fx_from_int, fx_max, fx_min, fx_mul, fx_round, fx_sub,
    saturate_wide, FIXED_MAX, FIXED_MIN, HALF, ONE,
};
use ledfx_flame::power::{density_scale, fifth_root_of, pow_six_fifths};
use ledfx_flame::trig::{cosine, sine, HALF_PI, PI, TWO_PI};

#[test]
fn floor_division_rounds_towards_negative_infinity() {
    assert_eq!(floor_div(7, 2), 3);
    assert_eq!(floor_div(-7, 2), -4);
    assert_eq!(floor_div(-8, 2), -4);
    assert_eq!(floor_div(-1, 65536), -1);
    assert_eq!(floor_div(0, 5), 0);
}

#[test]
fn products_and_quotients_are_exact_on_the_grid() {
    assert_eq!(fx_mul(3 * ONE, HALF), 3 * HALF);
    assert_eq!(fx_mul(-3 * ONE, HALF), -3 * HALF);
    assert_eq!(fx_mul(1, 1), 0);
    assert_eq!(fx_mul(-1, 1), -1);
    assert_eq!(fx_div(ONE, 3 * ONE), 21845);
    assert_eq!(fx_div(-ONE, 3 * ONE), -21846);
    assert_eq!(fx_div(5 * ONE, 2 * ONE), 5 * HALF);
}

#[test]
fn arithmetic_saturates_instead_of_overflowing() {
    assert_eq!(fx_add(FIXED_MAX, FIXED_MAX), FIXED_MAX);
    assert_eq!(fx_sub(FIXED_MIN, FIXED_MAX), FIXED_MIN);
    assert_eq!(fx_mul(FIXED_MAX, FIXED_MAX), FIXED_MAX);
    assert_eq!(fx_mul(FIXED_MAX, FIXED_MIN), FIXED_MIN);
    assert_eq!(fx_div(FIXED_MAX, 1), FIXED_MAX);
    assert_eq!(fx_add(i64::MAX, i64::MAX), FIXED_MAX);
    assert_eq!(saturate_wide(i128::MAX), FIXED_MAX);
    assert_eq!(saturate_wide(-5), -5);
    assert_eq!(fx_from_int(3), 3 * ONE);
    assert_eq!(fx_from_int(usize::MAX), FIXED_MAX);
}

#[test]
fn rounding_and_flooring() {
    assert_eq!(fx_floor(3 * ONE + 1), 3);
    assert_eq!(fx_floor(-1), -1);
    assert_eq!(fx_round(3 * ONE + HALF), 4);
    assert_eq!(fx_round(3 * ONE + HALF - 1), 3);
    assert_eq!(fx_round(-HALF), 0);
    assert_eq!(fx_round(-HALF - 1), -1);
    assert_eq!(fx_min(2, -3), -3);
    assert_eq!(fx_max(2, -3), 2);
}

#[test]
fn sine_and_cosine_landmarks() {
    assert_eq!(sine(0), 0);
    assert_eq!(sine(HALF_PI), 65535);
    assert_eq!(sine(PI), 0);
    assert_eq!(sine(ONE), 55064);
    assert_eq!(sine(-ONE), -55064);
    assert_eq!(sine(3 * PI / 2), -65535);
    assert_eq!(sine(1000000), 28488);
    assert_eq!(sine(TWO_PI), 0);
    assert_eq!(cosine(0), 65535);
    assert_eq!(cosine(HALF_PI), -1);
    assert_eq!(cosine(PI), -65535);
}

#[test]
fn sine_stays_close_to_the_true_sine() {
    let mut x: i64 = -900000;
    while x < 900000 {
        let exact = ((x as f64) / 65536.0).sin();
        let got = (sine(x) as f64) / 65536.0;
        assert!((exact - got).abs() < 0.002, "x = {}", x);
        assert!(sine(x) >= -ONE && sine(x) <= ONE);
        x += 997;
    }
}

#[test]
fn fifth_roots() {
    assert_eq!(fifth_root_of(0), 0);
    assert_eq!(fifth_root_of(1), 1);
    assert_eq!(fifth_root_of(31), 1);
    assert_eq!(fifth_root_of(32), 2);
    assert_eq!(fifth_root_of(243), 3);
    assert_eq!(fifth_root_of(99999), 9);
    assert_eq!(fifth_root_of(100000), 10);
    assert_eq!(fifth_root_of((1u128 << 125) - 1), (1u128 << 25) - 1);
}

#[test]
fn fade_curve_values() {
    assert_eq!(pow_six_fifths(0), 0);
    assert_eq!(pow_six_fifths(ONE), ONE);
    assert_eq!(pow_six_fifths(HALF), 28526);
    assert_eq!(pow_six_fifths(16384), 12416);
    assert_eq!(pow_six_fifths(70000), ONE);
    assert_eq!(pow_six_fifths(-5), 0);
    let exact = 0.5f64.powf(1.2) * 65536.0;
    assert!((exact - 28526.0).abs() < 1.0);
}

#[test]
fn density_scale_values() {
    assert_eq!(density_scale(0), 0);
    assert_eq!(density_scale(1), 5404);
    assert_eq!(density_scale(32), 43237);
    assert_eq!(density_scale(64), ONE);
    assert_eq!(density_scale(100), 85658);
    assert_eq!(density_scale(128), 99334);
    assert_eq!(density_scale(2000000), 22137669);
    assert_eq!(density_scale(1 << 20), 22137669);
    let exact = (100.0f64 / 64.0).powf(0.6) * 65536.0;
    assert!((exact - 85658.0).abs() < 1.0);
}
