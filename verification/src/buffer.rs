//! The pixel buffer: a three-axis `ndarray` byte array indexed by row,
//! column and channel. Proofs see it as a map from index triples to bytes
//! together with its three axis lengths.

use vstd::prelude::*;

verus! {

/// A rows × columns × channels byte image, stored in an `ndarray::Array3<u8>`.
#[verifier::external_body]
pub struct PixelBuffer {
    pub(crate) array: ndarray::Array3<u8>,
}

/// The elements of a buffer, keyed by `(row, column, channel)`.
pub uninterp spec fn buffer_cells(b: PixelBuffer) -> Map<(int, int, int), u8>;

/// The three axis lengths of a buffer: rows, columns, channels.
pub uninterp spec fn buffer_shape(b: PixelBuffer) -> Seq<nat>;

/// Whether `(y, x, c)` addresses an element of an array with the given axis lengths.
pub open spec fn in_bounds(h: nat, w: nat, ch: nat, y: int, x: int, c: int) -> bool {
    0 <= y < h && 0 <= x < w && 0 <= c < ch
}

/// Whether `k` comes before `(y, x, c)` in row-major order.
pub open spec fn precedes(k: (int, int, int), y: int, x: int, c: int) -> bool {
    k.0 < y || (k.0 == y && (k.1 < x || (k.1 == x && k.2 < c)))
}

/// The map that holds `v` at every index triple inside the given axis lengths.
pub open spec fn uniform_cells(h: nat, w: nat, ch: nat, v: u8) -> Map<(int, int, int), u8> {
    Map::new(|k: (int, int, int)| in_bounds(h, w, ch, k.0, k.1, k.2), |k: (int, int, int)| v)
}

/// Product of the axis lengths, a zero length counting as one: the quantity
/// that `ndarray` bounds by `isize::MAX`.
pub open spec fn nonzero_volume(h: nat, w: nat, ch: nat) -> nat {
    (if h == 0 { 1 } else { h }) * (if w == 0 { 1 } else { w }) * (if ch == 0 { 1 } else { ch })
}

impl PixelBuffer {
    /// The element map.
    pub open spec fn cells(self) -> Map<(int, int, int), u8> {
        buffer_cells(self)
    }

    /// Number of rows.
    pub open spec fn rows(self) -> nat {
        buffer_shape(self)[0]
    }

    /// Number of columns.
    pub open spec fn cols(self) -> nat {
        buffer_shape(self)[1]
    }

    /// Number of channels per pixel.
    pub open spec fn channels(self) -> nat {
        buffer_shape(self)[2]
    }

    /// Whether `(y, x, c)` addresses an element of this buffer.
    pub open spec fn holds(self, y: int, x: int, c: int) -> bool {
        in_bounds(self.rows(), self.cols(), self.channels(), y, x, c)
    }

    /// The element map covers exactly the index triples inside the shape.
    pub open spec fn wf(self) -> bool {
        &&& buffer_shape(self).len() == 3
        &&& forall|k: (int, int, int)| #[trigger]
            self.cells().contains_key(k) <==> self.holds(k.0, k.1, k.2)
    }

    /// Same axis lengths as `other`.
    pub open spec fn same_shape(self, other: PixelBuffer) -> bool {
        buffer_shape(self) == buffer_shape(other)
    }

    /// Calls `ArrayBase::dim`: the axis lengths as a triple. The contract
    /// also records that a buffer has three axes and one element for each
    /// index triple inside them.
    #[verifier::external_body]
    pub(crate) fn raw_dim(&self) -> (r: (usize, usize, usize))
        ensures
            buffer_shape(*self) == seq![r.0 as nat, r.1 as nat, r.2 as nat],
            forall|k: (int, int, int)| #[trigger]
                buffer_cells(*self).contains_key(k) <==> in_bounds(
                    r.0 as nat,
                    r.1 as nat,
                    r.2 as nat,
                    k.0,
                    k.1,
                    k.2,
                ),
    {
        self.array.dim()
    }

    /// Calls `Index::index` of `ArrayBase` with a triple, which panics
    /// outside the shape: the element at `(y, x, c)`.
    #[verifier::external_body]
    pub(crate) fn cell(&self, y: usize, x: usize, c: usize) -> (r: u8)
        requires
            self.holds(y as int, x as int, c as int),
        ensures
            r == buffer_cells(*self)[(y as int, x as int, c as int)],
    {
        self.array[(y, x, c)]
    }

    /// Calls `IndexMut::index_mut` of `ArrayBase` with a triple, which
    /// panics outside the shape, and stores `v` there: one element changes,
    /// the shape does not.
    #[verifier::external_body]
    pub(crate) fn put(&mut self, y: usize, x: usize, c: usize, v: u8)
        requires
            old(self).holds(y as int, x as int, c as int),
        ensures
            buffer_shape(*final(self)) == buffer_shape(*old(self)),
            buffer_cells(*final(self)) == buffer_cells(*old(self)).insert(
                (y as int, x as int, c as int),
                v,
            ),
    {
        self.array[(y, x, c)] = v;
    }

    /// Calls `ArrayBase::fill`: every element becomes `v`, the shape stays.
    #[verifier::external_body]
    pub(crate) fn raw_fill(&mut self, v: u8)
        ensures
            buffer_shape(*final(self)) == buffer_shape(*old(self)),
            buffer_cells(*final(self)).dom() == buffer_cells(*old(self)).dom(),
            forall|k: (int, int, int)| #[trigger]
                buffer_cells(*final(self)).contains_key(k) ==> buffer_cells(*final(self))[k] == v,
    {
        self.array.fill(v);
    }

    /// Calls `Clone::clone` of `ArrayBase`: a new array with the same shape
    /// and the same elements.
    #[verifier::external_body]
    pub(crate) fn raw_clone(&self) -> (r: PixelBuffer)
        ensures
            buffer_shape(r) == buffer_shape(*self),
            buffer_cells(r) == buffer_cells(*self),
    {
        PixelBuffer { array: self.array.clone() }
    }

    /// Calls `ArrayBase::zeros` with a triple, which panics when the product
    /// of the non-zero axis lengths exceeds `isize::MAX`: an array of that
    /// shape with every element zero.
    #[verifier::external_body]
    pub(crate) fn raw_zeros(h: usize, w: usize, ch: usize) -> (r: PixelBuffer)
        requires
            nonzero_volume(h as nat, w as nat, ch as nat) <= isize::MAX,
        ensures
            buffer_shape(r) == seq![h as nat, w as nat, ch as nat],
            buffer_cells(r) == uniform_cells(h as nat, w as nat, ch as nat, 0),
    {
        PixelBuffer { array: ndarray::Array3::zeros((h, w, ch)) }
    }

    /// The axis lengths: rows, columns, channels.
    pub fn dims(&self) -> (r: (usize, usize, usize))
        ensures
            self.wf(),
            r.0 == self.rows(),
            r.1 == self.cols(),
            r.2 == self.channels(),
    {
        self.raw_dim()
    }

    /// An all-zero buffer of the given shape, or `None` when the product of
    /// the non-zero axis lengths does not fit in `isize`.
    pub fn new(h: usize, w: usize, ch: usize) -> (r: Option<PixelBuffer>)
        ensures
            r.is_some() <==> nonzero_volume(h as nat, w as nat, ch as nat) <= isize::MAX,
            r matches Some(b) ==> {
                &&& b.wf()
                &&& b.rows() == h
                &&& b.cols() == w
                &&& b.channels() == ch
                &&& b.cells() == uniform_cells(h as nat, w as nat, ch as nat, 0)
            },
    {
        let a: usize = if h == 0 { 1 } else { h };
        let b: usize = if w == 0 { 1 } else { w };
        let c: usize = if ch == 0 { 1 } else { ch };
        let limit: usize = isize::MAX as usize;
        if a > limit / b {
            proof {
                lemma_volume_exceeds(a as nat, b as nat, c as nat, limit as nat);
            }
            return None;
        }
        proof {
            lemma_product_within(a as nat, b as nat, limit as nat);
        }
        let ab: usize = a * b;
        if ab > limit / c {
            proof {
                lemma_volume_exceeds(ab as nat, c as nat, 1, limit as nat);
            }
            return None;
        }
        proof {
            lemma_product_within(ab as nat, c as nat, limit as nat);
        }
        let r = PixelBuffer::raw_zeros(h, w, ch);
        Some(r)
    }

    /// The element at `(y, x, c)`, or `None` outside the shape.
    pub fn get(&self, y: usize, x: usize, c: usize) -> (r: Option<u8>)
        ensures
            self.wf(),
            r.is_some() <==> self.holds(y as int, x as int, c as int),
            r matches Some(v) ==> v == self.cells()[(y as int, x as int, c as int)],
    {
        let (h, w, ch) = self.raw_dim();
        if y < h && x < w && c < ch {
            Some(self.cell(y, x, c))
        } else {
            None
        }
    }

    /// Stores `v` at `(y, x, c)` and returns `true`; outside the shape the
    /// buffer is left as it is and the result is `false`.
    pub fn set(&mut self, y: usize, x: usize, c: usize, v: u8) -> (r: bool)
        ensures
            final(self).wf(),
            final(self).same_shape(*old(self)),
            r == old(self).holds(y as int, x as int, c as int),
            r ==> final(self).cells() == old(self).cells().insert(
                (y as int, x as int, c as int),
                v,
            ),
            !r ==> final(self).cells() == old(self).cells(),
    {
        let (h, w, ch) = self.raw_dim();
        if y < h && x < w && c < ch {
            self.put(y, x, c, v);
            true
        } else {
            false
        }
    }

    /// Sets every element to `v`.
    pub fn fill(&mut self, v: u8)
        ensures
            final(self).wf(),
            final(self).same_shape(*old(self)),
            final(self).cells() == uniform_cells(
                old(self).rows(),
                old(self).cols(),
                old(self).channels(),
                v,
            ),
    {
        let _ = self.raw_dim();
        self.raw_fill(v);
        assert(final(self).cells() =~= uniform_cells(
            old(self).rows(),
            old(self).cols(),
            old(self).channels(),
            v,
        ));
    }

    /// A copy with the same shape and elements.
    pub fn duplicate(&self) -> (r: PixelBuffer)
        ensures
            self.wf(),
            r.wf(),
            r.same_shape(*self),
            r.cells() == self.cells(),
    {
        let _ = self.raw_dim();
        self.raw_clone()
    }
}

/// If `a` exceeds `limit / b`, the product `a * b * c` exceeds `limit`.
proof fn lemma_volume_exceeds(a: nat, b: nat, c: nat, limit: nat)
    by (nonlinear_arith)
    requires
        b > 0,
        c > 0,
        a > limit / b,
    ensures
        a * b * c > limit,
{
}

/// If `a` is at most `limit / b`, the product `a * b` is at most `limit`.
proof fn lemma_product_within(a: nat, b: nat, limit: nat)
    by (nonlinear_arith)
    requires
        b > 0,
        a <= limit / b,
    ensures
        a * b <= limit,
{
}

} // verus!
