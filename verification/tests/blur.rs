use ledfx_flame::blur::{simple_blur, tap_after, tap_before};
use ledfx_flame::buffer::PixelBuffer;

fn filled(h: usize, w: usize, ch: usize, v: u8) -> PixelBuffer {
    let mut b = PixelBuffer::new(h, w, ch).unwrap();
    b.fill(v);
    b
}

fn same(a: &PixelBuffer, b: &PixelBuffer) -> bool {
    let (h, w, ch) = a.dims();
    if b.dims() != (h, w, ch) {
        return false;
    }
    for y in 0..h {
        for x in 0..w {
            for c in 0..ch {
                if a.get(y, x, c) != b.get(y, x, c) {
                    return false;
                }
            }
        }
    }
    true
}

#[test]
fn buffer_reads_back_what_was_written() {
    let mut b = PixelBuffer::new(3, 4, 5).unwrap();
    assert_eq!(b.dims(), (3, 4, 5));
    assert_eq!(b.get(2, 3, 4), Some(0));
    assert_eq!(b.get(3, 0, 0), None);
    assert_eq!(b.get(0, 4, 0), None);
    assert_eq!(b.get(0, 0, 5), None);
    assert!(b.set(1, 2, 3, 77));
    assert!(!b.set(1, 4, 3, 78));
    assert_eq!(b.get(1, 2, 3), Some(77));
    assert_eq!(b.get(1, 3, 2), Some(0));
    assert_eq!(b.get(2, 1, 3), Some(0));
    let copy = b.duplicate();
    assert!(b.set(1, 2, 3, 5));
    assert_eq!(copy.get(1, 2, 3), Some(77));
    assert_eq!(copy.dims(), (3, 4, 5));
    b.fill(9);
    assert_eq!(b.get(0, 0, 0), Some(9));
    assert_eq!(b.get(2, 3, 4), Some(9));
    assert_eq!(b.dims(), (3, 4, 5));
}

#[test]
fn buffer_of_impossible_size_is_refused() {
    assert!(PixelBuffer::new(usize::MAX, 2, 3).is_none());
    assert!(PixelBuffer::new(usize::MAX, usize::MAX, 0).is_none());
    assert!(PixelBuffer::new(usize::MAX / 2 + 1, 1, 1).is_none());
    let empty = PixelBuffer::new(0, 7, 3).unwrap();
    assert_eq!(empty.dims(), (0, 7, 3));
    assert_eq!(empty.get(0, 0, 0), None);
}

#[test]
fn taps_reflect_at_the_edges() {
    assert_eq!(tap_before(0, 5), 1);
    assert_eq!(tap_before(3, 5), 2);
    assert_eq!(tap_before(0, 1), 0);
    assert_eq!(tap_after(4, 5), 4);
    assert_eq!(tap_after(2, 5), 3);
    assert_eq!(tap_after(0, 1), 0);
}

#[test]
fn blur_with_no_pass_is_the_identity() {
    let mut b = PixelBuffer::new(5, 6, 3).unwrap();
    b.set(2, 3, 1, 200);
    b.set(0, 0, 0, 17);
    let before = b.duplicate();
    simple_blur(&mut b, 0);
    assert!(same(&b, &before));
}

#[test]
fn blur_keeps_a_uniform_image() {
    let mut b = PixelBuffer::new(7, 4, 3).unwrap();
    for y in 0..7 {
        for x in 0..4 {
            b.set(y, x, 0, 200);
            b.set(y, x, 1, 13);
            b.set(y, x, 2, 255);
        }
    }
    let before = b.duplicate();
    simple_blur(&mut b, 3);
    assert!(same(&b, &before));
    let mut one = filled(1, 1, 3, 99);
    simple_blur(&mut one, 2);
    assert_eq!(one.get(0, 0, 0), Some(99));
}

#[test]
fn blur_spreads_a_single_pixel() {
    let mut b = PixelBuffer::new(5, 5, 3).unwrap();
    b.set(2, 2, 0, 90);
    simple_blur(&mut b, 1);
    for y in 0..5 {
        for x in 0..5 {
            let near = (1..=3).contains(&y) && (1..=3).contains(&x);
            assert_eq!(b.get(y, x, 0), Some(if near { 10 } else { 0 }));
            assert_eq!(b.get(y, x, 1), Some(0));
        }
    }
}

#[test]
fn blur_mirrors_without_darkening_the_border() {
    let mut b = PixelBuffer::new(3, 3, 3).unwrap();
    b.set(0, 0, 2, 90);
    let mut out = b.duplicate();
    simple_blur(&mut out, 1);
    assert_eq!(out.get(0, 0, 2), Some(10));
    assert_eq!(out.get(1, 1, 2), Some(10));
    assert_eq!(out.get(0, 1, 2), Some(10));
    assert_eq!(out.get(1, 0, 2), Some(10));
    assert_eq!(out.get(2, 2, 2), Some(0));
    assert_eq!(out.get(0, 2, 2), Some(0));
    let mut top = PixelBuffer::new(3, 3, 3).unwrap();
    top.set(1, 1, 2, 90);
    let mut out1 = top.duplicate();
    simple_blur(&mut out1, 1);
    assert_eq!(out1.get(0, 0, 2), Some(40));
    assert_eq!(out1.get(1, 1, 2), Some(10));
    assert_eq!(out1.get(2, 2, 2), Some(10));
    assert_eq!(out1.get(0, 1, 2), Some(20));
    let mut c = PixelBuffer::new(3, 3, 3).unwrap();
    c.set(2, 2, 2, 90);
    let mut out2 = c.duplicate();
    simple_blur(&mut out2, 1);
    assert_eq!(out2.get(2, 2, 2), Some(40));
    assert_eq!(out2.get(1, 1, 2), Some(10));
    assert_eq!(out2.get(2, 1, 2), Some(20));
    assert_eq!(out2.get(0, 0, 2), Some(0));
}

#[test]
fn blur_rounds_the_mean_down_and_repeats() {
    let mut b = PixelBuffer::new(5, 5, 4).unwrap();
    b.set(2, 2, 3, 100);
    simple_blur(&mut b, 1);
    assert_eq!(b.get(2, 2, 3), Some(11));
    let mut twice = PixelBuffer::new(5, 5, 4).unwrap();
    twice.set(2, 2, 3, 100);
    simple_blur(&mut twice, 2);
    simple_blur(&mut b, 1);
    assert!(same(&b, &twice));
    assert_eq!(twice.get(2, 2, 3), Some(11));
    assert_eq!(twice.get(0, 0, 3), Some(4));
}
