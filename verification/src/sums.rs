//! The grid of sums of the blob compositor: one wide number for every
//! element of the image, held in an `ndarray::Array3<u128>`. Proofs see it
//! as a map from index triples to numbers together with its axis lengths.

use vstd::prelude::*;
use crate::buffer::{PixelBuffer, buffer_cells, buffer_shape, in_bounds};
use crate::fixed::ONE;

verus! {

/// A rows × columns × channels grid of sums, stored in an `ndarray::Array3<u128>`.
#[verifier::external_body]
pub struct SumGrid {
    array: ndarray::Array3<u128>,
}

/// The sums of a grid, keyed by `(row, column, channel)`.
pub uninterp spec fn grid_sums(g: SumGrid) -> Map<(int, int, int), u128>;

/// The three axis lengths of a grid: rows, columns, channels.
pub uninterp spec fn grid_shape(g: SumGrid) -> Seq<nat>;

/// What a sum starts from, in fixed point: zero if `additive` is set, the
/// stored byte otherwise.
pub open spec fn blob_seed(stored: u8, additive: bool) -> int {
    if additive {
        0
    } else {
        stored * ONE
    }
}

/// What a sum starts from.
pub fn seed_of(stored: u8, additive: bool) -> (r: u128)
    ensures
        r == blob_seed(stored, additive),
{
    if additive {
        0
    } else {
        (stored as u128) * 65536
    }
}

impl SumGrid {
    /// The map of sums.
    pub open spec fn sums(self) -> Map<(int, int, int), u128> {
        grid_sums(self)
    }

    /// Whether `(y, x, c)` addresses a sum of this grid.
    pub open spec fn holds(self, y: int, x: int, c: int) -> bool {
        in_bounds(grid_shape(self)[0], grid_shape(self)[1], grid_shape(self)[2], y, x, c)
    }

    /// The grid has the given axis lengths and one sum for each index
    /// triple inside them.
    pub open spec fn wf_for(self, h: nat, w: nat, ch: nat) -> bool {
        &&& grid_shape(self) == seq![h, w, ch]
        &&& forall|k: (int, int, int)| #[trigger]
            self.sums().contains_key(k) <==> in_bounds(h, w, ch, k.0, k.1, k.2)
    }

    /// Calls `ArrayBase::mapv` on the array of the image, with a closure
    /// that calls `seed_of`: a grid with the shape of the image whose every
    /// sum is the seed of the byte in the same place.
    #[verifier::external_body]
    pub(crate) fn seeded(image: &PixelBuffer, additive: bool) -> (g: SumGrid)
        ensures
            grid_shape(g) == buffer_shape(*image),
            grid_sums(g).dom() == buffer_cells(*image).dom(),
            forall|k: (int, int, int)| #[trigger]
                grid_sums(g).contains_key(k) ==> grid_sums(g)[k] == blob_seed(
                    buffer_cells(*image)[k],
                    additive,
                ),
    {
        SumGrid { array: image.array.mapv(|stored| seed_of(stored, additive)) }
    }

    /// Calls `Index::index` of `ArrayBase` with a triple, which panics
    /// outside the shape: the sum at `(y, x, c)`.
    #[verifier::external_body]
    pub(crate) fn sum(&self, y: usize, x: usize, c: usize) -> (r: u128)
        requires
            self.holds(y as int, x as int, c as int),
        ensures
            r == grid_sums(*self)[(y as int, x as int, c as int)],
    {
        self.array[(y, x, c)]
    }

    /// Calls `IndexMut::index_mut` of `ArrayBase` with a triple, which
    /// panics outside the shape, and stores `v` there: one sum changes, the
    /// shape does not.
    #[verifier::external_body]
    pub(crate) fn put(&mut self, y: usize, x: usize, c: usize, v: u128)
        requires
            old(self).holds(y as int, x as int, c as int),
        ensures
            grid_shape(*final(self)) == grid_shape(*old(self)),
            grid_sums(*final(self)) == grid_sums(*old(self)).insert(
                (y as int, x as int, c as int),
                v,
            ),
    {
        self.array[(y, x, c)] = v;
    }
}

} // verus!
