use ledfx_flame::fixed::ONE;
use ledfx_flame::rng::{ease, mix_seed, range_sample, velocity_offset_sample, SimpleRng};

#[test]
fn range_samples_are_linear_in_the_draw() {
    assert_eq!(range_sample(0, 98304, 229376), 98304);
    assert_eq!(range_sample(0x8000_0000, 98304, 229376), 163840);
    assert_eq!(range_sample(0xffff_ffff, 98304, 229376), 229375);
    assert_eq!(range_sample(0x4000_0000, -32768, 32768), -16384);
    assert_eq!(range_sample(0xffff_ffff, 0, ONE), 65535);
}

#[test]
fn empty_range_gives_its_lower_end() {
    assert_eq!(range_sample(12345, 7, 7), 7);
    assert_eq!(range_sample(12345, 9, 7), 9);
    assert_eq!(velocity_offset_sample(12345, 9, 7), 9);
    let mut rng = SimpleRng::new(1);
    assert_eq!(rng.next_range(5, 5), 5);
    assert_eq!(rng.next_range(5, -5), 5);
    assert_eq!(rng.next_velocity_offset(3, 3), 3);
}

#[test]
fn easing_curve_values() {
    assert_eq!(ease(0), 0);
    assert_eq!(ease(0x4000_0000), 536870912);
    assert_eq!(ease(0x8000_0000), 2147483648);
    assert_eq!(ease(0xc000_0000), 3758096384);
    assert_eq!(ease(0xffff_ffff), 4294967295);
    assert_eq!(ease(0xffff_0000), 4294967294);
}

#[test]
fn velocity_offsets_lean_towards_the_middle() {
    assert_eq!(velocity_offset_sample(0, 13107, 163840), 13107);
    assert_eq!(velocity_offset_sample(0x4000_0000, 13107, 163840), 31948);
    assert_eq!(velocity_offset_sample(0x8000_0000, 13107, 163840), 88473);
    assert_eq!(velocity_offset_sample(0xc000_0000, 13107, 163840), 144998);
    assert_eq!(velocity_offset_sample(0xffff_ffff, 13107, 163840), 163839);
}

#[test]
fn seeds_mix_time_and_identifier() {
    assert_eq!(mix_seed(5, 7), 864197528);
    assert_eq!(mix_seed(u64::MAX, 3), 370370366);
    assert_eq!(mix_seed(0, 1 << 63), 9223372036854775808);
    assert_ne!(mix_seed(99, 1), mix_seed(99, 2));
}

#[test]
fn samples_stay_in_their_ranges() {
    let mut rng = SimpleRng::new(7);
    let mut i = 0;
    while i < 2000 {
        let u = rng.next_f32();
        assert!(u >= 0 && u < ONE);
        let r = rng.next_range(-3 * ONE, 5 * ONE);
        assert!(r >= -3 * ONE && r < 5 * ONE);
        let v = rng.next_velocity_offset(13107, 163840);
        assert!(v >= 13107 && v < 163840);
        i += 1;
    }
}

#[test]
fn equal_seeds_give_equal_streams_and_other_seeds_other_streams() {
    let mut a = SimpleRng::new(1234);
    let mut b = SimpleRng::new(1234);
    let mut c = SimpleRng::new(1235);
    let mut same = 0;
    let mut distinct_values = 0;
    let mut last = -1;
    let mut i = 0;
    while i < 64 {
        let x = a.next_f32();
        let y = b.next_f32();
        let z = c.next_f32();
        assert_eq!(x, y);
        if x == z {
            same += 1;
        }
        if x != last {
            distinct_values += 1;
        }
        last = x;
        i += 1;
    }
    assert!(same < 8);
    assert!(distinct_values > 56);
}
