//! Toroidal index arithmetic and cell counting over a flat, row-major grid.

use vstd::prelude::*;

verus! {

/// The row (or column) one step before `i` on a torus of side `n`.
pub open spec fn wrap_dec_spec(i: int, n: int) -> int {
    if i == 0 {
        n - 1
    } else {
        i - 1
    }
}

/// The row (or column) one step after `i` on a torus of side `n`.
pub open spec fn wrap_inc_spec(i: int, n: int) -> int {
    if i == n - 1 {
        0
    } else {
        i + 1
    }
}

/// Decrement with toroidal wraparound.
pub fn wrap_dec(i: usize, n: usize) -> (r: usize)
    requires
        1 <= n,
        i < n,
    ensures
        r == wrap_dec_spec(i as int, n as int),
        r < n,
{
    if i == 0 {
        n - 1
    } else {
        i - 1
    }
}

/// Increment with toroidal wraparound.
pub fn wrap_inc(i: usize, n: usize) -> (r: usize)
    requires
        1 <= n,
        i < n,
    ensures
        r == wrap_inc_spec(i as int, n as int),
        r < n,
{
    if i == n - 1 {
        0
    } else {
        i + 1
    }
}

/// Grid edges connect to opposite edges: stepping off any side of the
/// lattice lands on the cell at the far side of the same row or column,
/// and interior steps move by exactly one.
pub proof fn lemma_toroidal_wrap(n: int)
    requires
        1 <= n,
    ensures
        wrap_dec_spec(0, n) == n - 1,
        wrap_inc_spec(n - 1, n) == 0,
        forall|i: int| 0 < i < n ==> #[trigger] wrap_dec_spec(i, n) == i - 1,
        forall|i: int| 0 <= i < n - 1 ==> #[trigger] wrap_inc_spec(i, n) == i + 1,
        forall|i: int| 0 <= i < n ==> wrap_inc_spec(#[trigger] wrap_dec_spec(i, n), n) == i,
        forall|i: int| 0 <= i < n ==> wrap_dec_spec(#[trigger] wrap_inc_spec(i, n), n) == i,
{
}

/// How many cells of the flat grid `cells` hold the value `v`.
pub open spec fn cell_count(cells: Seq<i32>, v: i32) -> nat
    decreases cells.len(),
{
    if cells.len() == 0 {
        0
    } else {
        cell_count(cells.drop_last(), v) + if cells.last() == v {
            1nat
        } else {
            0nat
        }
    }
}

/// A count never exceeds the number of cells.
pub proof fn lemma_cell_count_le_len(cells: Seq<i32>, v: i32)
    ensures
        cell_count(cells, v) <= cells.len(),
    decreases cells.len(),
{
    if cells.len() > 0 {
        lemma_cell_count_le_len(cells.drop_last(), v);
    }
}

/// A cell holding `v` contributes to the count of `v`.
pub proof fn lemma_cell_count_at_least_one(cells: Seq<i32>, i: int, v: i32)
    requires
        0 <= i < cells.len(),
        cells[i] == v,
    ensures
        cell_count(cells, v) >= 1,
    decreases cells.len(),
{
    if i < cells.len() - 1 {
        assert(cells.drop_last()[i] == v);
        lemma_cell_count_at_least_one(cells.drop_last(), i, v);
    }
}

/// Overwriting one cell changes each count by the contribution of the old
/// and new values of that cell alone.
pub proof fn lemma_cell_count_update(cells: Seq<i32>, i: int, w: i32, v: i32)
    requires
        0 <= i < cells.len(),
    ensures
        cell_count(cells.update(i, w), v) == cell_count(cells, v) + (if w == v {
            1int
        } else {
            0int
        }) - (if cells[i] == v {
            1int
        } else {
            0int
        }),
    decreases cells.len(),
{
    let upd = cells.update(i, w);
    if i == cells.len() - 1 {
        assert(upd.drop_last() =~= cells.drop_last());
    } else {
        assert(upd.drop_last() =~= cells.drop_last().update(i, w));
        lemma_cell_count_update(cells.drop_last(), i, w, v);
    }
}

/// Emptying cells cannot raise any species' count: if `b` agrees with `a`
/// except where it is empty, every occupant value is at most as frequent
/// in `b` as in `a`.
pub proof fn lemma_cell_count_only_emptied(a: Seq<i32>, b: Seq<i32>, v: i32)
    requires
        a.len() == b.len(),
        forall|i: int| 0 <= i < a.len() ==> #[trigger] b[i] == a[i] || b[i] == -1i32,
        v != -1,
    ensures
        cell_count(b, v) <= cell_count(a, v),
    decreases a.len(),
{
    if a.len() > 0 {
        assert(forall|i: int|
            0 <= i < a.drop_last().len() ==> #[trigger] b.drop_last()[i] == a.drop_last()[i]
                || b.drop_last()[i] == -1i32);
        lemma_cell_count_only_emptied(a.drop_last(), b.drop_last(), v);
        assert(b.last() == a.last() || b.last() == -1i32);
    }
}

/// A value that no cell holds has count zero.
pub proof fn lemma_cell_count_none(cells: Seq<i32>, v: i32)
    requires
        forall|i: int| 0 <= i < cells.len() ==> #[trigger] cells[i] != v,
    ensures
        cell_count(cells, v) == 0,
    decreases cells.len(),
{
    if cells.len() > 0 {
        assert(forall|i: int|
            0 <= i < cells.drop_last().len() ==> #[trigger] cells.drop_last()[i] != v);
        lemma_cell_count_none(cells.drop_last(), v);
    }
}

/// How many entries of `cells` are set.
pub open spec fn true_count(cells: Seq<bool>) -> nat
    decreases cells.len(),
{
    if cells.len() == 0 {
        0
    } else {
        true_count(cells.drop_last()) + if cells.last() {
            1nat
        } else {
            0nat
        }
    }
}

/// If every set entry of `a` is also set in `b`, then `a` has no more set
/// entries than `b`.
pub proof fn lemma_true_count_pointwise_le(a: Seq<bool>, b: Seq<bool>)
    requires
        a.len() == b.len(),
        forall|i: int| 0 <= i < a.len() && a[i] ==> b[i],
    ensures
        true_count(a) <= true_count(b),
    decreases a.len(),
{
    if a.len() > 0 {
        assert(forall|i: int|
            0 <= i < a.drop_last().len() && a.drop_last()[i] ==> b.drop_last()[i]);
        lemma_true_count_pointwise_le(a.drop_last(), b.drop_last());
        assert(a.last() ==> b.last());
    }
}

} // verus!
