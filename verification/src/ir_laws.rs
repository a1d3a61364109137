//! Laws of the loader's placement arithmetic: how declared members map to
//! materialised children, how a `for` tail is edited, and how Grid cells
//! conflict.
use crate::ir_loader::{
    cardinality_sum, grid_rects_overlap_spec, is_tail_plan, len_after_plan, slot_cardinality, DeclaredMemberSlot,
    GridCellRect, TailRangePlan,
};
use vstd::prelude::*;

verus! {

/// Declared members are laid out back to back: member `i + 1` starts where
/// member `i`'s materialised children end, and the members past the last
/// all start at the total.
pub proof fn law_offsets_accumulate(slots: Seq<DeclaredMemberSlot>, i: int)
    requires
        0 <= i,
    ensures
        i < slots.len() ==> cardinality_sum(slots, i + 1) == cardinality_sum(slots, i) + slot_cardinality(slots[i]),
        i >= slots.len() ==> cardinality_sum(slots, i) == cardinality_sum(slots, slots.len() as int),
{
}

/// A tail plan takes the tail to the requested length.
pub proof fn law_tail_plan_reaches_new_length(old_len: usize, new_len: usize, p: TailRangePlan)
    requires
        is_tail_plan(old_len, new_len, p),
    ensures
        len_after_plan(old_len as int, p) == new_len,
{
}

/// Removing the tail last index first never names a child that is gone:
/// when the `k`-th removal is applied, `k` children have already left, and
/// its index is the last of those that remain and at least `new_len`.
pub proof fn law_tail_removals_stay_in_range(old_len: usize, new_len: usize, p: TailRangePlan, k: int)
    requires
        is_tail_plan(old_len, new_len, p),
        new_len < old_len,
        0 <= k < old_len - new_len,
    ensures
        p matches TailRangePlan::Remove { tail_first_indices } && tail_first_indices@[k] == (old_len - k) - 1
            && tail_first_indices@[k] >= new_len,
{
    if let TailRangePlan::Remove { tail_first_indices } = p {
        assert(tail_first_indices@[k] == old_len - 1 - k);
    }
}

/// Overlap is symmetric, so checking each pair of Grid children once finds
/// every conflict.
pub proof fn law_grid_overlap_symmetric(a: GridCellRect, b: GridCellRect)
    ensures
        grid_rects_overlap_spec(a, b) == grid_rects_overlap_spec(b, a),
{
}

/// A rectangle spanning at least one row and one column overlaps itself, so
/// two children placed on the same cell always conflict.
pub proof fn law_same_cell_conflicts(a: GridCellRect, b: GridCellRect)
    requires
        a.row == b.row,
        a.column == b.column,
        a.row_span >= 1,
        a.column_span >= 1,
        b.row_span >= 1,
        b.column_span >= 1,
    ensures
        grid_rects_overlap_spec(a, b),
{
}

} // verus!
