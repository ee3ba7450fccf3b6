//! What holds of every Gaussian kernel: its weights lie between zero and
//! one, the centre carries the largest of them, and the grid is symmetric
//! under reflection in either axis and under transposition.

use vstd::prelude::*;
use vstd::arithmetic::div_mod::lemma_fundamental_div_mod_converse;
use crate::kernel::{
    EXP_TERMS, KERNEL_ONE, MAX_BLOB_RADIUS, cell_distance_sq, center_index, exp_sum, exp_term,
    gauss_exponent, gauss_raw, kernel_raw, kernel_side, kernel_weights, lemma_exp_at_zero, share,
    shares_beside, sum_to,
};

verus! {

/// For an exponent that is not negative every term of the series is not
/// negative, so the series is at least one.
pub proof fn lemma_exp_sum_at_least_one(q: int, k: nat)
    requires
        q >= 0,
    ensures
        exp_term(q, k) >= 0,
        exp_sum(q, k) >= KERNEL_ONE,
    decreases k,
{
    if k > 0 {
        lemma_exp_sum_at_least_one(q, (k - 1) as nat);
        let t = exp_term(q, (k - 1) as nat);
        assert((t * q) / ((k as int) * 0x1_0000_0000) >= 0) by (nonlinear_arith)
            requires
                t >= 0,
                q >= 0,
                k > 0,
        ;
    }
}

/// An unnormalised weight lies between zero and one, and is one at distance zero.
pub proof fn lemma_gauss_raw_range(d2: int, r: int)
    requires
        d2 >= 0,
        r >= 0,
    ensures
        0 <= gauss_raw(d2, r) <= KERNEL_ONE,
        d2 == 0 ==> gauss_raw(d2, r) == KERNEL_ONE,
{
    let q = gauss_exponent(d2, r);
    assert(q >= 0 && (d2 == 0 ==> q == 0)) by (nonlinear_arith)
        requires
            q == (2 * d2 * 0x1_0000_0000) / ((r + 1) * (r + 1)),
            d2 >= 0,
            r >= 0,
    ;
    lemma_exp_sum_at_least_one(q, EXP_TERMS as nat);
    let e = exp_sum(q, EXP_TERMS as nat);
    assert(0 <= 0x1_0000_0000_0000_0000int / e <= 0x1_0000_0000) by (nonlinear_arith)
        requires
            e >= 0x1_0000_0000,
    ;
    assert(KERNEL_ONE * KERNEL_ONE == 0x1_0000_0000_0000_0000);
    if d2 == 0 {
        lemma_exp_at_zero(EXP_TERMS as nat);
        assert(0x1_0000_0000_0000_0000int / e == 0x1_0000_0000) by (nonlinear_arith)
            requires
                e == 0x1_0000_0000,
        ;
    }
}

/// The cell in row `ky` and column `kx` of the grid: its index, its
/// distance from the centre, and when it is the centre.
pub proof fn lemma_cell_of(r: int, ky: int, kx: int)
    requires
        0 <= r,
        0 <= ky < kernel_side(r),
        0 <= kx < kernel_side(r),
    ensures
        0 <= ky * kernel_side(r) + kx < kernel_side(r) * kernel_side(r),
        cell_distance_sq(ky * kernel_side(r) + kx, r) == (kx - r) * (kx - r) + (ky - r) * (ky - r),
        cell_distance_sq(ky * kernel_side(r) + kx, r) >= 0,
        ky * kernel_side(r) + kx == center_index(r) <==> ky == r && kx == r,
{
    let side = kernel_side(r);
    let i = ky * side + kx;
    assert(0 <= i < side * side) by (nonlinear_arith)
        requires
            i == ky * side + kx,
            0 <= ky < side,
            0 <= kx < side,
    ;
    lemma_fundamental_div_mod_converse(i, side, ky, kx);
    lemma_fundamental_div_mod_converse(center_index(r), side, r, r);
    assert((kx - r) * (kx - r) + (ky - r) * (ky - r) >= 0) by (nonlinear_arith);
}

/// Every index of the grid is the index of a cell.
pub proof fn lemma_index_is_cell(r: int, i: int)
    requires
        0 <= r,
        0 <= i < kernel_side(r) * kernel_side(r),
    ensures
        0 <= i / kernel_side(r) < kernel_side(r),
        0 <= i % kernel_side(r) < kernel_side(r),
        i == (i / kernel_side(r)) * kernel_side(r) + i % kernel_side(r),
{
    let side = kernel_side(r);
    vstd::arithmetic::div_mod::lemma_fundamental_div_mod(i, side);
    vstd::arithmetic::div_mod::lemma_mod_bound(i, side);
    let q = i / side;
    assert(0 <= q < side) by (nonlinear_arith)
        requires
            i == side * q + i % side,
            0 <= i % side < side,
            0 <= i < side * side,
            side > 0,
    ;
    assert(side * q == q * side) by (nonlinear_arith);
}

/// An unnormalised cell lies between zero and one, and the centre is one.
pub proof fn lemma_raw_range(r: int, i: int)
    requires
        0 <= r,
        0 <= i < kernel_side(r) * kernel_side(r),
    ensures
        0 <= kernel_raw(r)[i] <= KERNEL_ONE,
        i == center_index(r) ==> kernel_raw(r)[i] == KERNEL_ONE,
{
    lemma_index_is_cell(r, i);
    lemma_cell_of(r, i / kernel_side(r), i % kernel_side(r));
    if i == center_index(r) {
        assert((r - r) * (r - r) == 0) by (nonlinear_arith);
    }
    lemma_gauss_raw_range(cell_distance_sq(i, r), r);
}

/// The sum of numbers between zero and one lies between each of them and their count.
proof fn lemma_sum_bounds(s: Seq<int>, n: nat, j: int)
    requires
        n <= s.len(),
        forall|i: int| 0 <= i < n ==> 0 <= #[trigger] s[i] <= 0x1_0000_0000,
        0 <= j < n,
    ensures
        s[j] <= sum_to(s, n) <= n * 0x1_0000_0000,
    decreases n,
{
    if n == 1 {
        assert(sum_to(s, 0) == 0);
    } else if j < n - 1 {
        lemma_sum_bounds(s, (n - 1) as nat, j);
    } else {
        lemma_sum_bounds(s, (n - 1) as nat, 0);
    }
    assert(0 <= s[n - 1] <= 0x1_0000_0000);
}

/// The shares of the first `n` cells, the centre's own share included,
/// do not add up to more than the cells' part of the whole.
proof fn lemma_shares_fit(raw: Seq<int>, total: int, center: int, n: nat)
    requires
        total > 0,
        0 <= center < raw.len(),
        n <= raw.len(),
        forall|i: int| 0 <= i < raw.len() ==> 0 <= #[trigger] raw[i],
    ensures
        0 <= shares_beside(raw, total, center, n),
        (shares_beside(raw, total, center, n) + if center < n {
            share(raw, total, center)
        } else {
            0
        }) * total <= KERNEL_ONE * sum_to(raw, n),
    decreases n,
{
    if n > 0 {
        lemma_shares_fit(raw, total, center, (n - 1) as nat);
        let before = shares_beside(raw, total, center, (n - 1) as nat) + if center < n - 1 {
            share(raw, total, center)
        } else {
            0
        };
        let w = share(raw, total, n - 1);
        assert(0 <= w && w * total <= raw[n - 1] * 0x1_0000_0000) by (nonlinear_arith)
            requires
                0 <= raw[n - 1],
                total > 0,
                w == (raw[n - 1] * 0x1_0000_0000) / total,
        ;
        assert((before + w) * total <= 0x1_0000_0000 * (sum_to(raw, (n - 1) as nat) + raw[n - 1]))
            by (nonlinear_arith)
            requires
                before * total <= 0x1_0000_0000 * sum_to(raw, (n - 1) as nat),
                w * total <= raw[n - 1] * 0x1_0000_0000,
        ;
    } else {
        assert(0 * total == 0);
    }
}

/// Every weight of a kernel lies between zero and one, none is larger than
/// the weight of the centre, and the centre's weight is positive.
pub proof fn lemma_kernel_peaks_at_center(r: int)
    requires
        0 <= r <= MAX_BLOB_RADIUS,
    ensures
        0 <= center_index(r) < kernel_weights(r).len(),
        0 < kernel_weights(r)[center_index(r)] <= KERNEL_ONE,
        forall|i: int|
            0 <= i < kernel_weights(r).len() ==> 0 <= #[trigger] kernel_weights(r)[i]
                <= kernel_weights(r)[center_index(r)],
{
    let raw = kernel_raw(r);
    let side = kernel_side(r);
    let center = center_index(r);
    let n = raw.len();
    lemma_cell_of(r, r, r);
    assert(n == side * side && n <= 0xfffe_0001) by (nonlinear_arith)
        requires
            n == side * side,
            0 < side <= 65535,
    ;
    assert forall|i: int| 0 <= i < n implies 0 <= #[trigger] raw[i] <= KERNEL_ONE by {
        lemma_raw_range(r, i);
    }
    lemma_raw_range(r, center);
    let total = sum_to(raw, n);
    lemma_sum_bounds(raw, n, center);
    assert(n * 0x1_0000_0000 < 0x1_0000_0000_0000_0000);
    lemma_shares_fit(raw, total, center, n);
    let beside = shares_beside(raw, total, center, n);
    let fair = share(raw, total, center);
    assert(fair >= 1) by (nonlinear_arith)
        requires
            fair == (0x1_0000_0000int * 0x1_0000_0000int) / total,
            0 < total < 0x1_0000_0000_0000_0000,
    ;
    assert(beside + fair <= KERNEL_ONE) by (nonlinear_arith)
        requires
            (beside + fair) * total <= 0x1_0000_0000 * total,
            total > 0,
    ;
    assert forall|i: int| 0 <= i < kernel_weights(r).len() implies 0 <= #[trigger] kernel_weights(
        r,
    )[i] <= kernel_weights(r)[center] by {
        if i != center {
            assert(0 <= share(raw, total, i) <= fair) by (nonlinear_arith)
                requires
                    0 <= raw[i] <= 0x1_0000_0000,
                    total > 0,
                    fair == (0x1_0000_0000int * 0x1_0000_0000int) / total,
                    share(raw, total, i) == (raw[i] * 0x1_0000_0000) / total,
            ;
        }
    }
}

/// A kernel is symmetric: reflecting a cell in the centre column or the
/// centre row, or swapping its row and column, leaves its weight as it is.
pub proof fn lemma_kernel_is_symmetric(r: int, ky: int, kx: int)
    requires
        0 <= r,
        0 <= ky < kernel_side(r),
        0 <= kx < kernel_side(r),
    ensures
        kernel_weights(r)[ky * kernel_side(r) + kx] == kernel_weights(r)[ky * kernel_side(r) + (2 * r
            - kx)],
        kernel_weights(r)[ky * kernel_side(r) + kx] == kernel_weights(r)[(2 * r - ky) * kernel_side(
            r,
        ) + kx],
        kernel_weights(r)[ky * kernel_side(r) + kx] == kernel_weights(r)[kx * kernel_side(r) + ky],
{
    lemma_cell_of(r, ky, kx);
    lemma_cell_of(r, ky, 2 * r - kx);
    lemma_cell_of(r, 2 * r - ky, kx);
    lemma_cell_of(r, kx, ky);
    assert((2 * r - kx - r) * (2 * r - kx - r) == (kx - r) * (kx - r)) by (nonlinear_arith);
    assert((2 * r - ky - r) * (2 * r - ky - r) == (ky - r) * (ky - r)) by (nonlinear_arith);
}

} // verus!
