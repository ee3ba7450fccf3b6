//! The post filter: a 3×3 box blur whose taps outside the image are
//! reflected back across the nearest edge.

use vstd::prelude::*;
use crate::buffer::{PixelBuffer, in_bounds, precedes};

verus! {

/// Reflects a tap coordinate into `0..n`: a negative coordinate `-i` maps to
/// `i`, a coordinate `i >= n` maps to `2n - 1 - i`, and the result is clamped
/// to the valid range.
pub open spec fn mirror(i: int, n: nat) -> int {
    let j = if i < 0 {
        -i
    } else if i >= n {
        2 * n - 1 - i
    } else {
        i
    };
    if j >= n {
        n - 1
    } else if j < 0 {
        0
    } else {
        j
    }
}

/// The value of the tap at `(y, x)` in channel `c`, reflected into the image.
pub open spec fn tap(cells: Map<(int, int, int), u8>, h: nat, w: nat, y: int, x: int, c: int) -> int {
    cells[(mirror(y, h), mirror(x, w), c)] as int
}

/// Sum of the nine taps of the 3×3 neighbourhood centred on `(y, x)`.
pub open spec fn box_sum(cells: Map<(int, int, int), u8>, h: nat, w: nat, y: int, x: int, c: int) -> int {
    tap(cells, h, w, y - 1, x - 1, c) + tap(cells, h, w, y - 1, x, c) + tap(
        cells,
        h,
        w,
        y - 1,
        x + 1,
        c,
    ) + tap(cells, h, w, y, x - 1, c) + tap(cells, h, w, y, x, c) + tap(cells, h, w, y, x + 1, c)
        + tap(cells, h, w, y + 1, x - 1, c) + tap(cells, h, w, y + 1, x, c) + tap(
        cells,
        h,
        w,
        y + 1,
        x + 1,
        c,
    )
}

/// The blurred value of one element: the mean of its neighbourhood, rounded down.
pub open spec fn box_mean(cells: Map<(int, int, int), u8>, h: nat, w: nat, y: int, x: int, c: int) -> u8 {
    (box_sum(cells, h, w, y, x, c) / 9) as u8
}

/// One blur pass over a whole image.
pub open spec fn blur_pass(cells: Map<(int, int, int), u8>, h: nat, w: nat, ch: nat) -> Map<
    (int, int, int),
    u8,
> {
    Map::new(
        |k: (int, int, int)| in_bounds(h, w, ch, k.0, k.1, k.2),
        |k: (int, int, int)| box_mean(cells, h, w, k.0, k.1, k.2),
    )
}

/// `n` blur passes in a row.
pub open spec fn blurred(cells: Map<(int, int, int), u8>, h: nat, w: nat, ch: nat, n: nat) -> Map<
    (int, int, int),
    u8,
>
    decreases n,
{
    if n == 0 {
        cells
    } else {
        blur_pass(blurred(cells, h, w, ch, (n - 1) as nat), h, w, ch)
    }
}

/// The reflected neighbour below index `i` of an axis of length `n`.
pub fn tap_before(i: usize, n: usize) -> (r: usize)
    requires
        i < n,
    ensures
        r == mirror(i - 1, n as nat),
        r < n,
{
    if i > 0 {
        i - 1
    } else if n > 1 {
        1
    } else {
        0
    }
}

/// The reflected neighbour above index `i` of an axis of length `n`.
pub fn tap_after(i: usize, n: usize) -> (r: usize)
    requires
        i < n,
    ensures
        r == mirror(i + 1, n as nat),
        r < n,
{
    if i + 1 < n {
        i + 1
    } else {
        i
    }
}

/// Sum of the three taps of one row of a neighbourhood.
fn row_sum(src: &PixelBuffer, y: usize, xl: usize, x: usize, xr: usize, c: usize) -> (r: u16)
    requires
        src.holds(y as int, xl as int, c as int),
        src.holds(y as int, x as int, c as int),
        src.holds(y as int, xr as int, c as int),
    ensures
        r == src.cells()[(y as int, xl as int, c as int)] + src.cells()[(
            y as int,
            x as int,
            c as int,
        )] + src.cells()[(y as int, xr as int, c as int)],
{
    let a: u16 = src.cell(y, xl, c) as u16;
    let b: u16 = src.cell(y, x, c) as u16;
    let d: u16 = src.cell(y, xr, c) as u16;
    a + b + d
}

/// Writes one blur pass of `src` into `dst`, which has the same shape.
fn blur_pass_into(src: &PixelBuffer, dst: &mut PixelBuffer)
    requires
        old(dst).same_shape(*src),
    ensures
        final(dst).wf(),
        final(dst).same_shape(*src),
        final(dst).cells() == blur_pass(src.cells(), src.rows(), src.cols(), src.channels()),
{
    let (h, w, ch) = src.dims();
    let _ = dst.dims();
    let mut y: usize = 0;
    while y < h
        invariant
            y <= h,
            h == src.rows(),
            w == src.cols(),
            ch == src.channels(),
            src.wf(),
            dst.wf(),
            dst.same_shape(*src),
            forall|k: (int, int, int)|
                src.holds(k.0, k.1, k.2) && precedes(k, y as int, 0, 0) ==> #[trigger] dst.cells()[k]
                    == box_mean(src.cells(), h as nat, w as nat, k.0, k.1, k.2),
        decreases h - y,
    {
        let yu: usize = tap_before(y, h);
        let yd: usize = tap_after(y, h);
        let mut x: usize = 0;
        while x < w
            invariant
                y < h,
                x <= w,
                yu < h,
                yd < h,
                yu == mirror(y - 1, h as nat),
                yd == mirror(y + 1, h as nat),
                h == src.rows(),
                w == src.cols(),
                ch == src.channels(),
                src.wf(),
                dst.wf(),
                dst.same_shape(*src),
                forall|k: (int, int, int)|
                    src.holds(k.0, k.1, k.2) && precedes(k, y as int, x as int, 0)
                        ==> #[trigger] dst.cells()[k] == box_mean(
                        src.cells(),
                        h as nat,
                        w as nat,
                        k.0,
                        k.1,
                        k.2,
                    ),
            decreases w - x,
        {
            let xl: usize = tap_before(x, w);
            let xr: usize = tap_after(x, w);
            let mut c: usize = 0;
            while c < ch
                invariant
                    y < h,
                    x < w,
                    c <= ch,
                    yu < h,
                    yd < h,
                    xl < w,
                    xr < w,
                    yu == mirror(y - 1, h as nat),
                    yd == mirror(y + 1, h as nat),
                    xl == mirror(x - 1, w as nat),
                    xr == mirror(x + 1, w as nat),
                    h == src.rows(),
                    w == src.cols(),
                    ch == src.channels(),
                    src.wf(),
                    dst.wf(),
                    dst.same_shape(*src),
                    forall|k: (int, int, int)|
                        src.holds(k.0, k.1, k.2) && precedes(k, y as int, x as int, c as int)
                            ==> #[trigger] dst.cells()[k] == box_mean(
                            src.cells(),
                            h as nat,
                            w as nat,
                            k.0,
                            k.1,
                            k.2,
                        ),
                decreases ch - c,
            {
                let top: u16 = row_sum(src, yu, xl, x, xr, c);
                let mid: u16 = row_sum(src, y, xl, x, xr, c);
                let bot: u16 = row_sum(src, yd, xl, x, xr, c);
                let sum: u16 = top + mid + bot;
                assert(sum == box_sum(
                    src.cells(),
                    h as nat,
                    w as nat,
                    y as int,
                    x as int,
                    c as int,
                ));
                let mean: u8 = (sum / 9) as u8;
                let ghost before = *dst;
                let ghost here = (y as int, x as int, c as int);
                dst.put(y, x, c, mean);
                proof {
                    assert forall|k: (int, int, int)| #[trigger]
                        dst.cells().contains_key(k) <==> dst.holds(k.0, k.1, k.2) by {
                        assert(before.cells().contains_key(k) <==> before.holds(k.0, k.1, k.2));
                        assert(k == here <==> (k.0 == here.0 && k.1 == here.1 && k.2 == here.2));
                    }
                    assert forall|k: (int, int, int)|
                        src.holds(k.0, k.1, k.2) && precedes(
                            k,
                            y as int,
                            x as int,
                            c as int + 1,
                        ) implies #[trigger] dst.cells()[k] == box_mean(
                        src.cells(),
                        h as nat,
                        w as nat,
                        k.0,
                        k.1,
                        k.2,
                    ) by {
                        assert(k == here <==> (k.0 == here.0 && k.1 == here.1 && k.2 == here.2));
                        if k != here {
                            assert(precedes(k, y as int, x as int, c as int));
                            assert(dst.cells()[k] == before.cells()[k]);
                        }
                    }
                }
                c += 1;
            }
            x += 1;
        }
        y += 1;
    }
    assert(dst.cells() =~= blur_pass(src.cells(), h as nat, w as nat, ch as nat));
}

/// Applies `blur_amount` passes of the mirror-padded box blur to `output`.
/// With `blur_amount == 0` the buffer is left as it is.
pub fn simple_blur(output: &mut PixelBuffer, blur_amount: usize)
    ensures
        final(output).wf(),
        final(output).same_shape(*old(output)),
        final(output).cells() == blurred(
            old(output).cells(),
            old(output).rows(),
            old(output).cols(),
            old(output).channels(),
            blur_amount as nat,
        ),
{
    let (h, w, ch) = output.dims();
    if blur_amount == 0 {
        return ;
    }
    let mut scratch = output.duplicate();
    let mut pass: usize = 0;
    while pass < blur_amount
        invariant
            pass <= blur_amount,
            h == old(output).rows(),
            w == old(output).cols(),
            ch == old(output).channels(),
            output.wf(),
            scratch.wf(),
            output.same_shape(*old(output)),
            scratch.same_shape(*old(output)),
            output.cells() == blurred(
                old(output).cells(),
                h as nat,
                w as nat,
                ch as nat,
                pass as nat,
            ),
        decreases blur_amount - pass,
    {
        blur_pass_into(output, &mut scratch);
        std::mem::swap(output, &mut scratch);
        pass += 1;
    }
}

/// With no pass the blur is the identity.
pub proof fn lemma_blur_zero_is_identity(cells: Map<(int, int, int), u8>, h: nat, w: nat, ch: nat)
    ensures
        blurred(cells, h, w, ch, 0) == cells,
{
}

/// A reflected neighbour of a valid index is a valid index.
pub proof fn lemma_mirror_in_range(i: int, n: nat)
    requires
        0 <= i < n,
    ensures
        0 <= mirror(i - 1, n) < n,
        0 <= mirror(i, n) < n,
        0 <= mirror(i + 1, n) < n,
{
}

/// An image in which every channel holds one value throughout is a fixed
/// point of the blur, for any number of passes.
pub proof fn lemma_blur_keeps_uniform(
    cells: Map<(int, int, int), u8>,
    h: nat,
    w: nat,
    ch: nat,
    n: nat,
)
    requires
        forall|k: (int, int, int)| #[trigger] cells.contains_key(k) <==> in_bounds(h, w, ch, k.0, k.1, k.2),
        forall|k: (int, int, int), j: (int, int, int)|
            #[trigger] cells.contains_key(k) && #[trigger] cells.contains_key(j) && k.2 == j.2
                ==> cells[k] == cells[j],
    ensures
        blurred(cells, h, w, ch, n) == cells,
    decreases n,
{
    if n > 0 {
        lemma_blur_keeps_uniform(cells, h, w, ch, (n - 1) as nat);
        let pass = blur_pass(cells, h, w, ch);
        assert forall|k: (int, int, int)| #[trigger] pass.contains_key(k) implies pass[k] == cells[k] by {
            let (y, x, c) = k;
            lemma_mirror_in_range(y, h);
            lemma_mirror_in_range(x, w);
            let v = cells[k];
            assert(cells.contains_key(k));
            assert(cells.contains_key((mirror(y - 1, h), mirror(x - 1, w), c)));
            assert(cells.contains_key((mirror(y - 1, h), mirror(x, w), c)));
            assert(cells.contains_key((mirror(y - 1, h), mirror(x + 1, w), c)));
            assert(cells.contains_key((mirror(y, h), mirror(x - 1, w), c)));
            assert(cells.contains_key((mirror(y, h), mirror(x, w), c)));
            assert(cells.contains_key((mirror(y, h), mirror(x + 1, w), c)));
            assert(cells.contains_key((mirror(y + 1, h), mirror(x - 1, w), c)));
            assert(cells.contains_key((mirror(y + 1, h), mirror(x, w), c)));
            assert(cells.contains_key((mirror(y + 1, h), mirror(x + 1, w), c)));
            assert(box_sum(cells, h, w, y, x, c) == 9 * v);
        }
        assert(pass =~= cells);
    }
}

} // verus!
