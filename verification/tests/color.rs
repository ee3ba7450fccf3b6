use ledfx_flame::color::{get_fire_color, hsv_to_rgb, rgb_to_hsv, to_channel_byte, Hsv};
use ledfx_flame::fixed::{floor_mod, HALF, ONE};

#[test]
fn primaries_convert_to_their_hues() {
    assert_eq!(rgb_to_hsv(255, 0, 0), Hsv { h: 0, s: ONE, v: ONE });
    assert_eq!(rgb_to_hsv(0, 255, 0), Hsv { h: 21845, s: ONE, v: ONE });
    assert_eq!(rgb_to_hsv(0, 0, 255), Hsv { h: 43690, s: ONE, v: ONE });
    assert_eq!(rgb_to_hsv(255, 255, 0), Hsv { h: 10922, s: ONE, v: ONE });
    assert_eq!(rgb_to_hsv(255, 100, 50), Hsv { h: 2664, s: 52685, v: ONE });
    assert_eq!(rgb_to_hsv(10, 200, 30), Hsv { h: 22995, s: 62259, v: 51400 });
}

#[test]
fn greys_have_hue_zero_and_black_has_saturation_zero() {
    assert_eq!(rgb_to_hsv(128, 128, 128), Hsv { h: 0, s: 0, v: 32896 });
    assert_eq!(rgb_to_hsv(0, 0, 0), Hsv { h: 0, s: 0, v: 0 });
    assert_eq!(rgb_to_hsv(255, 255, 255), Hsv { h: 0, s: 0, v: ONE });
}

#[test]
fn hue_sectors() {
    assert_eq!(hsv_to_rgb(0, ONE, ONE), [255, 0, 0]);
    assert_eq!(hsv_to_rgb(21845, ONE, ONE), [0, 255, 0]);
    assert_eq!(hsv_to_rgb(43691, ONE, ONE), [0, 0, 255]);
    assert_eq!(hsv_to_rgb(HALF, HALF, HALF), [64, 128, 128]);
}

#[test]
fn hues_outside_the_circle_fall_in_the_end_sectors() {
    assert_eq!(hsv_to_rgb(-5, ONE, ONE), [255, 0, 0]);
    assert_eq!(hsv_to_rgb(70000, ONE, ONE), [255, 0, 104]);
}

#[test]
fn round_trip_is_exact_on_a_grid_of_colours() {
    let mut r: u16 = 0;
    while r < 256 {
        let mut g: u16 = 0;
        while g < 256 {
            let mut b: u16 = 0;
            while b < 256 {
                let hsv = rgb_to_hsv(r as u8, g as u8, b as u8);
                assert!(hsv.h >= 0 && hsv.h < ONE);
                assert_eq!(hsv_to_rgb(hsv.h, hsv.s, hsv.v), [r as u8, g as u8, b as u8]);
                b += 5;
            }
            g += 3;
        }
        r += 7;
    }
}

#[test]
fn fire_colour_values() {
    let red = Hsv { h: 0, s: ONE, v: ONE };
    assert_eq!(get_fire_color(red, 0, 0), red);
    assert_eq!(get_fire_color(red, ONE, ONE), Hsv { h: 0, s: ONE, v: 39322 });
    let orange = Hsv { h: 9830, s: 52429, v: ONE };
    assert_eq!(get_fire_color(orange, HALF, HALF), Hsv { h: 1966, s: 57672, v: 44565 });
    let cyan = Hsv { h: HALF, s: HALF, v: HALF };
    assert_eq!(get_fire_color(cyan, 16384, 0), Hsv { h: 34406, s: 34406, v: 29491 });
}

#[test]
fn fire_colour_moves_the_hue_toward_red() {
    let orange = Hsv { h: 9830, s: ONE, v: ONE };
    assert_eq!(get_fire_color(orange, ONE, ONE).h, 0);
    let nearly_red = Hsv { h: 2000, s: ONE, v: ONE };
    assert_eq!(get_fire_color(nearly_red, ONE, 0).h, 0);
    let violet = Hsv { h: 40000, s: ONE, v: ONE };
    assert_eq!(get_fire_color(violet, ONE, 0).h, 46554);
    let just_below_red = Hsv { h: 65000, s: ONE, v: ONE };
    assert_eq!(get_fire_color(just_below_red, ONE, 0).h, 2741);
    let mut h: i64 = 0;
    while h < ONE {
        let base = Hsv { h, s: ONE, v: ONE };
        let shifted = get_fire_color(base, HALF, HALF).h;
        let before = if h < HALF { h } else { ONE - h };
        let after = if shifted < HALF { shifted } else { ONE - shifted };
        assert!(after <= before || (h > 58982 && shifted < 3277), "hue {}", h);
        h += 97;
    }
}

#[test]
fn fire_colour_wraps_the_hue_and_never_goes_black() {
    let magenta = Hsv { h: 62259, s: ONE, v: ONE };
    let shifted = get_fire_color(magenta, ONE, 0);
    assert_eq!(shifted, Hsv { h: 0, s: ONE, v: 39322 });
    let far = get_fire_color(magenta, 100 * ONE, 100 * ONE);
    assert_eq!(far.v, 39322);
    assert!(far.s <= ONE);
}

#[test]
fn channel_bytes_round_and_clamp() {
    assert_eq!(to_channel_byte(0), 0);
    assert_eq!(to_channel_byte(ONE), 255);
    assert_eq!(to_channel_byte(2 * ONE), 255);
    assert_eq!(to_channel_byte(-ONE), 0);
    assert_eq!(to_channel_byte(HALF), 128);
    assert_eq!(floor_mod(-1, 10), 9);
    assert_eq!(floor_mod(23, 10), 3);
}
