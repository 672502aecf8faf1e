//! The order in which the cells of a cubic grid are visited.
//!
//! A grid of edge length `n` has `n * n * n` cells, addressed by three offsets
//! `(x, y, z)`, each below `n`. The traversal visits them with `x` varying
//! fastest, then `y`, then `z`. This module states that order as a pair of
//! functions between indices and their place in the order, and proves that the
//! two are inverse to each other.
use vstd::prelude::*;
use vstd::arithmetic::div_mod::lemma_fundamental_div_mod_converse;
use vstd::arithmetic::div_mod::lemma_fundamental_div_mod;
use vstd::arithmetic::div_mod::lemma_div_denominator;
use vstd::arithmetic::div_mod::lemma_mod_bound;

verus! {

/// Index of one cell of a grid: offsets along x, y and z.
pub type VolumeIdx = (usize, usize, usize);

/// Whether every offset of `idx` lies below the edge length `size`.
pub open spec fn in_bounds(size: usize, idx: VolumeIdx) -> bool {
    idx.0 < size && idx.1 < size && idx.2 < size
}

/// Number of cells of a grid of edge length `size`.
pub open spec fn volume_len(size: usize) -> nat {
    (size * size * size) as nat
}

/// Place of `idx` in the traversal: the number of cells visited before it.
pub open spec fn rank(size: usize, idx: VolumeIdx) -> nat {
    (idx.0 + size * idx.1 + size * size * idx.2) as nat
}

/// The cell visited at place `k` of the traversal.
pub open spec fn index_at(size: usize, k: nat) -> VolumeIdx {
    (
        (k as int % size as int) as usize,
        ((k as int / size as int) % size as int) as usize,
        (k as int / (size * size)) as usize,
    )
}

/// All indices of a grid of edge length `size`, in traversal order.
pub open spec fn volume_indices(size: usize) -> Seq<VolumeIdx> {
    Seq::new(volume_len(size), |k: int| index_at(size, k as nat))
}

/// The place of an index inside the grid is below the number of cells.
pub proof fn lemma_rank_bound(size: usize, idx: VolumeIdx)
    requires
        in_bounds(size, idx),
    ensures
        rank(size, idx) < volume_len(size),
{
    let n = size as int;
    let x = idx.0 as int;
    let y = idx.1 as int;
    let z = idx.2 as int;
    assert(n * y <= n * (n - 1)) by (nonlinear_arith)
        requires
            0 <= y <= n - 1,
            0 < n,
    ;
    assert(n * n * z <= n * n * (n - 1)) by (nonlinear_arith)
        requires
            0 <= z <= n - 1,
            0 < n,
    ;
    assert(n * (n - 1) + n * n * (n - 1) + n == n * n * n) by (nonlinear_arith);
}

/// The cell at the place of `idx` is `idx` itself.
pub proof fn lemma_index_at_rank(size: usize, idx: VolumeIdx)
    requires
        in_bounds(size, idx),
    ensures
        index_at(size, rank(size, idx)) == idx,
{
    let n = size as int;
    let x = idx.0 as int;
    let y = idx.1 as int;
    let z = idx.2 as int;
    let k = rank(size, idx) as int;
    let upper = y + n * z;
    assert(k == upper * n + x) by (nonlinear_arith)
        requires
            k == x + n * y + n * n * z,
            upper == y + n * z,
    ;
    lemma_fundamental_div_mod_converse(k, n, upper, x);
    assert(upper == z * n + y) by (nonlinear_arith)
        requires
            upper == y + n * z,
    ;
    lemma_fundamental_div_mod_converse(upper, n, z, y);
    lemma_div_denominator(k, n, n);
}

/// The cell at a place below the number of cells lies inside the grid, and
/// its place is that place.
pub proof fn lemma_rank_index_at(size: usize, k: nat)
    requires
        k < volume_len(size),
    ensures
        in_bounds(size, index_at(size, k)),
        rank(size, index_at(size, k)) == k,
{
    let n = size as int;
    let ki = k as int;
    assert(n > 0) by (nonlinear_arith)
        requires
            ki < n * n * n,
            0 <= ki,
            0 <= n,
    ;
    let upper = ki / n;
    lemma_fundamental_div_mod(ki, n);
    lemma_fundamental_div_mod(upper, n);
    lemma_mod_bound(ki, n);
    lemma_mod_bound(upper, n);
    lemma_div_denominator(ki, n, n);
    let x = ki % n;
    let y = upper % n;
    let z = upper / n;
    assert(0 <= upper) by (nonlinear_arith)
        requires
            ki == n * upper + x,
            0 <= ki,
            0 <= x < n,
    ;
    assert(0 <= z < n) by (nonlinear_arith)
        requires
            ki == n * upper + x,
            upper == n * z + y,
            0 <= x < n,
            0 <= y < n,
            0 <= ki < n * n * n,
    ;
    assert(ki == x + n * y + n * n * z) by (nonlinear_arith)
        requires
            ki == n * upper + x,
            upper == n * z + y,
    ;
}

/// Traversal completeness: the traversal of a grid holds every index of the
/// grid, each at the place that `rank` gives it and nowhere else, and holds
/// nothing but indices of the grid.
pub proof fn lemma_traversal_complete(size: usize)
    ensures
        volume_indices(size).len() == volume_len(size),
        forall|idx: VolumeIdx|
            in_bounds(size, idx) ==> rank(size, idx) < volume_len(size) && volume_indices(size)[#[trigger] rank(
                size,
                idx,
            ) as int] == idx,
        forall|k: int|
            0 <= k < volume_len(size) ==> in_bounds(size, #[trigger] volume_indices(size)[k]) && rank(
                size,
                volume_indices(size)[k],
            ) == k,
        forall|j: int, k: int|
            0 <= j < volume_len(size) && 0 <= k < volume_len(size) && volume_indices(size)[j]
                == volume_indices(size)[k] ==> j == k,
{
    assert forall|idx: VolumeIdx| in_bounds(size, idx) implies rank(size, idx) < volume_len(size)
        && volume_indices(size)[#[trigger] rank(size, idx) as int] == idx by {
        lemma_rank_bound(size, idx);
        lemma_index_at_rank(size, idx);
    }
    assert forall|k: int| 0 <= k < volume_len(size) implies in_bounds(
        size,
        #[trigger] volume_indices(size)[k],
    ) && rank(size, volume_indices(size)[k]) == k by {
        lemma_rank_index_at(size, k as nat);
    }
}

} // verus!
