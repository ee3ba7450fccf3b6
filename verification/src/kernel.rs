//! Normalised Gaussian kernels for the blob compositor, and their cache.
//!
//! The kernel of radius `r` is a grid of side `2r + 1` whose cell at offset
//! `(dx, dy)` from the centre weighs `exp(-(dx² + dy²) / (2σ²))` with
//! `σ = r / 2 + 1 / 2`, divided by the sum over the grid. Weights are
//! fractions of `2^32`; the exponential is the reciprocal of a truncated
//! power series; the centre cell absorbs the rounding so that the weights
//! add up to one exactly.

use vstd::prelude::*;
use std::collections::HashMap;
use vstd::arithmetic::div_mod::lemma_fundamental_div_mod_converse;

verus! {

/// The representation of the weight 1.
pub const KERNEL_ONE: u64 = 0x1_0000_0000;

/// Number of terms after the first in the power series of the exponential.
pub const EXP_TERMS: u64 = 24;

/// Largest supported kernel radius: the grid must have fewer than `2^32` cells.
pub const MAX_BLOB_RADIUS: usize = 32767;

/// The `k`-th term of the power series of `exp(q / 2^32)`, as a fraction of `2^32`.
pub open spec fn exp_term(q: int, k: nat) -> int
    decreases k,
{
    if k == 0 {
        KERNEL_ONE as int
    } else {
        (exp_term(q, (k - 1) as nat) * q) / (k * KERNEL_ONE)
    }
}

/// The power series of `exp(q / 2^32)` up to the `k`-th term.
pub open spec fn exp_sum(q: int, k: nat) -> int
    decreases k,
{
    if k == 0 {
        KERNEL_ONE as int
    } else {
        exp_sum(q, (k - 1) as nat) + exp_term(q, k)
    }
}

/// The exponent `d2 / (2σ²) = 2 d2 / (r + 1)²` of the Gaussian of radius `r`, as a fraction of `2^32`.
pub open spec fn gauss_exponent(d2: int, r: int) -> int {
    (2 * d2 * KERNEL_ONE) / ((r + 1) * (r + 1))
}

/// The unnormalised Gaussian weight at squared distance `d2` for radius `r`.
pub open spec fn gauss_raw(d2: int, r: int) -> int {
    (KERNEL_ONE * KERNEL_ONE) / exp_sum(gauss_exponent(d2, r), EXP_TERMS as nat)
}

/// Side of the kernel grid of radius `r`.
pub open spec fn kernel_side(r: int) -> int {
    2 * r + 1
}

/// Squared distance from the centre of the cell with row-major index `i`.
pub open spec fn cell_distance_sq(i: int, r: int) -> int {
    let ky = i / kernel_side(r);
    let kx = i % kernel_side(r);
    (kx - r) * (kx - r) + (ky - r) * (ky - r)
}

/// The unnormalised kernel of radius `r`, row by row.
pub open spec fn kernel_raw(r: int) -> Seq<int> {
    Seq::new(
        (kernel_side(r) * kernel_side(r)) as nat,
        |i: int| gauss_raw(cell_distance_sq(i, r), r),
    )
}

/// Sum of the first `n` elements of `s`.
pub open spec fn sum_to(s: Seq<int>, n: nat) -> int
    decreases n,
{
    if n == 0 {
        0
    } else {
        sum_to(s, (n - 1) as nat) + s[n - 1]
    }
}

/// Row-major index of the centre cell.
pub open spec fn center_index(r: int) -> int {
    r * kernel_side(r) + r
}

/// The share of the whole that cell `i` gets, rounded down.
pub open spec fn share(raw: Seq<int>, total: int, i: int) -> int {
    (raw[i] * KERNEL_ONE) / total
}

/// Sum of the shares of the first `n` cells, the centre left out.
pub open spec fn shares_beside(raw: Seq<int>, total: int, center: int, n: nat) -> int
    decreases n,
{
    if n == 0 {
        0
    } else {
        shares_beside(raw, total, center, (n - 1) as nat) + if n - 1 == center {
            0
        } else {
            share(raw, total, n - 1)
        }
    }
}

/// The normalised weights: every cell but the centre gets its share, the
/// centre gets what is left of one.
pub open spec fn normalized(raw: Seq<int>, center: int) -> Seq<int> {
    let total = sum_to(raw, raw.len());
    Seq::new(
        raw.len(),
        |i: int|
            if i == center {
                KERNEL_ONE - shares_beside(raw, total, center, raw.len())
            } else {
                share(raw, total, i)
            },
    )
}

/// The kernel of radius `r`: its normalised weights, row by row.
pub open spec fn kernel_weights(r: int) -> Seq<int> {
    normalized(kernel_raw(r), center_index(r))
}

/// One step of the series: the next term is at most `4 / k` times the last.
proof fn lemma_term_step(term: int, q: int, k: int, next: int)
    by (nonlinear_arith)
    requires
        0 <= term,
        0 <= q < 0x4_0000_0000,
        k >= 1,
        next == (term * q) / (k * 0x1_0000_0000),
    ensures
        0 <= next,
        k == 1 ==> next <= 4 * term,
        k == 2 ==> next <= 2 * term,
        k == 3 ==> 3 * next <= 4 * term,
        k >= 4 ==> next <= term,
        0 <= term * q <= 0x4_0000_0000 * term,
{
}

/// The truncated power series of `exp(q / 2^32)`.
pub fn exp_series(q: u64) -> (e: u128)
    requires
        q < 4 * KERNEL_ONE,
    ensures
        e == exp_sum(q as int, EXP_TERMS as nat),
        KERNEL_ONE <= e <= 0x1000_0000_0000,
{
    let mut term: u128 = KERNEL_ONE as u128;
    let mut sum: u128 = KERNEL_ONE as u128;
    let mut k: u64 = 0;
    while k < EXP_TERMS
        invariant
            k <= EXP_TERMS,
            q < 4 * KERNEL_ONE,
            term == exp_term(q as int, k as nat),
            sum == exp_sum(q as int, k as nat),
            k == 0 ==> term == 0x1_0000_0000,
            k == 1 ==> term <= 0x4_0000_0000,
            k == 2 ==> term <= 0x8_0000_0000,
            term <= 0xb_0000_0000,
            0x1_0000_0000 <= sum <= 0x1_0000_0000 + k * 0xb_0000_0000,
        decreases EXP_TERMS - k,
    {
        k += 1;
        let ghost last = term;
        proof {
            lemma_term_step(
                term as int,
                q as int,
                k as int,
                ((term as int) * (q as int)) / ((k as int) * 0x1_0000_0000),
            );
        }
        term = (term * (q as u128)) / ((k as u128) * 0x1_0000_0000);
        sum += term;
    }
    sum
}

/// The unnormalised Gaussian weight at squared distance `d2` for radius `r`.
pub fn gauss_weight(d2: u64, r: u64) -> (v: u64)
    requires
        r <= MAX_BLOB_RADIUS,
        d2 <= 2 * r * r,
    ensures
        v == gauss_raw(d2 as int, r as int),
        0 <= v <= KERNEL_ONE,
        d2 == 0 ==> v == KERNEL_ONE,
{
    let side: u128 = (r as u128) + 1;
    assert(0 < side * side <= 0x4000_0000) by (nonlinear_arith)
        requires
            1 <= side <= 0x8000,
    ;
    assert(2 * d2 < 4 * (side * side) && 2 * d2 <= 0x1_0000_0000) by (nonlinear_arith)
        requires
            d2 <= 2 * r * r,
            side == r + 1,
            r <= 32767,
    ;
    let num: u128 = 2 * (d2 as u128) * (KERNEL_ONE as u128);
    let q: u128 = num / (side * side);
    assert(q < 4 * KERNEL_ONE) by (nonlinear_arith)
        requires
            q == (num as int) / (side * side),
            num == 2 * d2 * KERNEL_ONE,
            2 * d2 < 4 * (side * side),
            side * side > 0,
    ;
    assert(d2 == 0 ==> q == 0) by (nonlinear_arith)
        requires
            q == (num as int) / (side * side),
            num == 2 * d2 * KERNEL_ONE,
            side * side > 0,
    ;
    let e: u128 = exp_series(q as u64);
    proof {
        if d2 == 0 {
            lemma_exp_at_zero(EXP_TERMS as nat);
            assert(e == 0x1_0000_0000);
        }
    }
    let v: u128 = 0x1_0000_0000_0000_0000 / e;
    assert(v <= KERNEL_ONE) by (nonlinear_arith)
        requires
            v == 0x1_0000_0000_0000_0000int / (e as int),
            e >= 0x1_0000_0000,
    ;
    assert(KERNEL_ONE * KERNEL_ONE == 0x1_0000_0000_0000_0000);
    proof {
        if d2 == 0 {
            assert(0x1_0000_0000_0000_0000int / (e as int) == 0x1_0000_0000) by (nonlinear_arith)
                requires
                    e == 0x1_0000_0000,
            ;
        }
    }
    v as u64
}

/// At exponent zero the series is exactly one.
pub proof fn lemma_exp_at_zero(k: nat)
    ensures
        exp_sum(0, k) == KERNEL_ONE,
        k > 0 ==> exp_term(0, k) == 0,
    decreases k,
{
    if k > 0 {
        lemma_exp_at_zero((k - 1) as nat);
        assert(exp_term(0, (k - 1) as nat) * 0 == 0);
        assert(0int / (k * KERNEL_ONE) == 0) by (nonlinear_arith)
            requires
                k > 0,
        ;
    }
}

/// The weights of a stored kernel as integers.
pub open spec fn as_ints(s: Seq<u64>) -> Seq<int> {
    Seq::new(s.len(), |i: int| s[i] as int)
}

/// The weights of a normalised kernel add up to one.
pub proof fn lemma_normalized_sums_to_one(raw: Seq<int>, center: int)
    requires
        0 <= center < raw.len(),
    ensures
        sum_to(normalized(raw, center), raw.len()) == KERNEL_ONE,
{
    lemma_normalized_prefix(raw, center, raw.len());
}

/// The sum of the first `n` normalised weights: the shares beside the
/// centre, and the centre's weight once it is among them.
proof fn lemma_normalized_prefix(raw: Seq<int>, center: int, n: nat)
    requires
        0 <= center < raw.len(),
        n <= raw.len(),
    ensures
        sum_to(normalized(raw, center), n) == shares_beside(
            raw,
            sum_to(raw, raw.len()),
            center,
            n,
        ) + if center < n {
            KERNEL_ONE - shares_beside(raw, sum_to(raw, raw.len()), center, raw.len())
        } else {
            0
        },
    decreases n,
{
    if n > 0 {
        lemma_normalized_prefix(raw, center, (n - 1) as nat);
    }
}

/// The Gaussian kernel of every radius up to the limit sums to one.
pub proof fn lemma_kernel_sums_to_one(r: int)
    requires
        0 <= r,
    ensures
        sum_to(kernel_weights(r), kernel_weights(r).len()) == KERNEL_ONE,
        kernel_weights(r).len() == kernel_side(r) * kernel_side(r),
{
    assert(0 <= center_index(r) < kernel_side(r) * kernel_side(r)) by (nonlinear_arith)
        requires
            0 <= r,
    ;
    lemma_normalized_sums_to_one(kernel_raw(r), center_index(r));
}

/// A share times the total does not exceed the raw weight times one.
proof fn lemma_share_bound(raw: int, total: int, w: int)
    by (nonlinear_arith)
    requires
        0 <= raw,
        total > 0,
        w == (raw * KERNEL_ONE) / total,
    ensures
        0 <= w,
        w * total <= raw * KERNEL_ONE,
{
}

/// The unnormalised kernel of radius `radius`, row by row.
fn build_raw(radius: usize) -> (raw: Vec<u64>)
    requires
        radius <= MAX_BLOB_RADIUS,
    ensures
        as_ints(raw@) == kernel_raw(radius as int),
        raw@.len() == kernel_side(radius as int) * kernel_side(radius as int),
        raw@[center_index(radius as int)] == KERNEL_ONE,
        0 <= center_index(radius as int) < raw@.len(),
        forall|i: int| 0 <= i < raw@.len() ==> #[trigger] raw@[i] <= KERNEL_ONE,
{
    let r: u64 = radius as u64;
    let side: u64 = 2 * r + 1;
    let ghost cidx = center_index(r as int);
    assert(side * side <= 0xfffe_0001 && cidx == r * side + r && 0 <= cidx < side * side)
        by (nonlinear_arith)
        requires
            side == 2 * r + 1,
            0 <= r <= 32767,
            cidx == r * (2 * r + 1) + r,
    ;
    let mut raw: Vec<u64> = Vec::new();
    let mut ky: u64 = 0;
    while ky < side
        invariant
            ky <= side,
            side == 2 * r + 1,
            r == radius,
            r <= 32767,
            side * side <= 0xfffe_0001,
            cidx == r * side + r,
            raw@.len() == ky * side,
            forall|j: int|
                0 <= j < raw@.len() ==> #[trigger] raw@[j] as int == gauss_raw(
                    cell_distance_sq(j, r as int),
                    r as int,
                ),
            forall|j: int| 0 <= j < raw@.len() ==> #[trigger] raw@[j] <= KERNEL_ONE,
            raw@.len() > cidx ==> raw@[cidx] == KERNEL_ONE,
        decreases side - ky,
    {
        let dy: u64 = if ky >= r { ky - r } else { r - ky };
        let mut kx: u64 = 0;
        while kx < side
            invariant
                ky < side,
                kx <= side,
                side == 2 * r + 1,
                r == radius,
                r <= 32767,
                side * side <= 0xfffe_0001,
                cidx == r * side + r,
                dy == if ky >= r { ky - r } else { r - ky },
                raw@.len() == ky * side + kx,
                forall|j: int|
                    0 <= j < raw@.len() ==> #[trigger] raw@[j] as int == gauss_raw(
                        cell_distance_sq(j, r as int),
                        r as int,
                    ),
                forall|j: int| 0 <= j < raw@.len() ==> #[trigger] raw@[j] <= KERNEL_ONE,
                raw@.len() > cidx ==> raw@[cidx] == KERNEL_ONE,
            decreases side - kx,
        {
            let dx: u64 = if kx >= r { kx - r } else { r - kx };
            let ghost i = ky * side + kx;
            assert(dx * dx + dy * dy <= 2 * r * r && dx * dx == (kx - r) * (kx - r) && dy * dy == (ky
                - r) * (ky - r) && dx * dx <= 0x4000_0000 && dy * dy <= 0x4000_0000)
                by (nonlinear_arith)
                requires
                    0 <= dx <= r,
                    0 <= dy <= r,
                    r <= 32767,
                    dx == kx - r || dx == r - kx,
                    dy == ky - r || dy == r - ky,
            ;
            let d2: u64 = dx * dx + dy * dy;
            proof {
                lemma_fundamental_div_mod_converse(i, side as int, ky as int, kx as int);
                assert(cell_distance_sq(i, r as int) == d2);
                assert(i == cidx ==> ky == r && kx == r) by (nonlinear_arith)
                    requires
                        i == ky * side + kx,
                        cidx == r * side + r,
                        0 <= kx < side,
                        0 <= r < side,
                        0 <= ky,
                ;
            }
            let v: u64 = gauss_weight(d2, r);
            proof {
                if i == cidx {
                    assert(dx == 0 && dy == 0);
                    assert(dx * dx == 0 && dy * dy == 0) by (nonlinear_arith)
                        requires
                            dx == 0,
                            dy == 0,
                    ;
                    assert(d2 == 0);
                    assert(v == KERNEL_ONE);
                }
            }
            let ghost before = raw@;
            raw.push(v);
            proof {
                assert(before.len() == i);
                assert(forall|j: int| 0 <= j < before.len() ==> raw@[j] == before[j]);
            }
            kx += 1;
        }
        assert(ky * side + side == (ky + 1) * side) by (nonlinear_arith);
        ky += 1;
    }
    assert(as_ints(raw@) =~= kernel_raw(radius as int));
    raw
}

/// The sum of a grid of raw weights.
fn sum_raw(raw: &Vec<u64>, center: usize) -> (total: u128)
    requires
        center < raw@.len(),
        raw@[center as int] == KERNEL_ONE,
        forall|i: int| 0 <= i < raw@.len() ==> #[trigger] raw@[i] <= KERNEL_ONE,
    ensures
        total == sum_to(as_ints(raw@), raw@.len()),
        KERNEL_ONE <= total <= raw@.len() * KERNEL_ONE,
{
    let n: usize = raw.len();
    let mut total: u128 = 0;
    let mut i: usize = 0;
    while i < n
        invariant
            i <= n,
            n == raw@.len(),
            center < n,
            raw@[center as int] == KERNEL_ONE,
            forall|j: int| 0 <= j < raw@.len() ==> #[trigger] raw@[j] <= KERNEL_ONE,
            total == sum_to(as_ints(raw@), i as nat),
            total <= i * 0x1_0000_0000,
            i > center ==> total >= KERNEL_ONE,
        decreases n - i,
    {
        total += raw[i] as u128;
        i += 1;
    }
    total
}

/// The normalised Gaussian kernel of the given radius, row by row.
pub fn build_kernel(radius: usize) -> (k: Vec<u64>)
    requires
        radius <= MAX_BLOB_RADIUS,
    ensures
        as_ints(k@) == kernel_weights(radius as int),
        k@.len() == kernel_side(radius as int) * kernel_side(radius as int),
        sum_to(as_ints(k@), k@.len()) == KERNEL_ONE,
        forall|i: int| 0 <= i < k@.len() ==> #[trigger] k@[i] <= KERNEL_ONE,
{
    let raw: Vec<u64> = build_raw(radius);
    let n: usize = raw.len();
    let center: usize = radius * (2 * radius + 1) + radius;
    let total: u128 = sum_raw(&raw, center);
    let ghost ints = as_ints(raw@);
    let mut weights: Vec<u64> = Vec::new();
    let mut beside: u128 = 0;
    let mut i: usize = 0;
    while i < n
        invariant
            i <= n,
            n == raw@.len(),
            center < n,
            ints == as_ints(raw@),
            total == sum_to(ints, n as nat),
            total >= KERNEL_ONE,
            forall|j: int| 0 <= j < raw@.len() ==> #[trigger] raw@[j] <= KERNEL_ONE,
            weights@.len() == i,
            beside == shares_beside(ints, total as int, center as int, i as nat),
            beside * total <= KERNEL_ONE * sum_to(ints, i as nat),
            beside <= i * 0x1_0000_0000,
            0 <= sum_to(ints, i as nat) <= i * 0x1_0000_0000,
            forall|j: int|
                0 <= j < i && j != center ==> #[trigger] weights@[j] as int == share(
                    ints,
                    total as int,
                    j,
                ),
            forall|j: int| 0 <= j < i ==> #[trigger] weights@[j] <= KERNEL_ONE,
        decreases n - i,
    {
        if i == center {
            weights.push(0);
        } else {
            let w: u128 = ((raw[i] as u128) * 0x1_0000_0000) / total;
            proof {
                lemma_share_bound(raw@[i as int] as int, total as int, w as int);
                assert(w <= KERNEL_ONE) by (nonlinear_arith)
                    requires
                        w * total <= raw@[i as int] * KERNEL_ONE,
                        raw@[i as int] <= KERNEL_ONE,
                        total >= KERNEL_ONE,
                        0 <= w,
                ;
                assert((beside + w) * total <= KERNEL_ONE * (sum_to(ints, i as nat) + ints[i as int]))
                    by (nonlinear_arith)
                    requires
                        beside * total <= KERNEL_ONE * sum_to(ints, i as nat),
                        w * total <= ints[i as int] * KERNEL_ONE,
                ;
            }
            beside += w;
            weights.push(w as u64);
        }
        i += 1;
    }
    proof {
        assert(beside <= KERNEL_ONE) by (nonlinear_arith)
            requires
                beside * total <= KERNEL_ONE * total,
                total > 0,
                0 <= beside,
        ;
    }
    weights.set(center, (0x1_0000_0000 - beside) as u64);
    proof {
        assert(as_ints(weights@) =~= normalized(ints, center as int));
        lemma_normalized_sums_to_one(ints, center as int);
    }
    weights
}

/// The kernels built so far, by radius. A kernel is built once and reused.
pub struct KernelCache {
    pub kernels: HashMap<usize, Vec<u64>>,
}

impl KernelCache {
    /// Every stored kernel is the kernel of its radius, and none of its
    /// weights exceeds one.
    pub open spec fn wf(self) -> bool {
        forall|r: usize| #[trigger]
            self.kernels@.contains_key(r) ==> {
                &&& r <= MAX_BLOB_RADIUS
                &&& as_ints(self.kernels@[r]@) == kernel_weights(r as int)
                &&& forall|i: int|
                    0 <= i < self.kernels@[r]@.len() ==> #[trigger] self.kernels@[r]@[i]
                        <= KERNEL_ONE
            }
    }

    /// An empty cache.
    pub fn new() -> (c: KernelCache)
        ensures
            c.wf(),
            c.kernels@ == Map::<usize, Vec<u64>>::empty(),
    {
        KernelCache { kernels: HashMap::new() }
    }

    /// Makes sure that the kernel of `radius` is in the cache. A kernel
    /// that is there already is kept as it is.
    pub fn prepare(&mut self, radius: usize)
        requires
            old(self).wf(),
            radius <= MAX_BLOB_RADIUS,
        ensures
            final(self).wf(),
            final(self).kernels@.contains_key(radius),
            old(self).kernels@.contains_key(radius) ==> final(self).kernels@ == old(self).kernels@,
            final(self).kernels@.remove(radius) == old(self).kernels@.remove(radius),
            forall|r: usize| #[trigger]
                old(self).kernels@.contains_key(r) ==> final(self).kernels@.contains_key(r),
    {
        if !self.kernels.contains_key(&radius) {
            let k: Vec<u64> = build_kernel(radius);
            self.kernels.insert(radius, k);
            assert(final(self).kernels@.remove(radius) =~= old(self).kernels@.remove(radius));
        }
    }

    /// The weight of cell `index` of the kernel of `radius`, which must
    /// have been prepared.
    pub fn weight(&self, radius: usize, index: usize) -> (w: u64)
        requires
            self.wf(),
            self.kernels@.contains_key(radius),
            index < kernel_weights(radius as int).len(),
        ensures
            w == kernel_weights(radius as int)[index as int],
    {
        match self.kernels.get(&radius) {
            Some(k) => {
                assert(as_ints(k@)[index as int] == k@[index as int]);
                k[index]
            },
            None => 0,
        }
    }
}

} // verus!
