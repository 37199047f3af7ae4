//! Free-list table over one backing allocation of fixed size.
//!
//! The table is a sequence of cells in ascending offset order. A cell is either
//! free or occupied; the offset of a cell is the sum of the lengths before it.
//! Allocation is first fit with the size rounded up to the alignment; freeing
//! merges the cell with its free neighbours.

use vstd::arithmetic::div_mod::{lemma_add_mod_noop, lemma_small_mod, lemma_sub_mod_noop};
use vstd::prelude::*;

verus! {

/// Whether a cell of the table is available.
#[derive(Clone, Copy, PartialEq, Eq, Debug, Structural)]
pub enum BufferAllocCellStatus {
    Free,
    Occupied,
}

/// One contiguous run of the backing allocation.
#[derive(Clone, Copy, PartialEq, Eq, Debug, Structural)]
pub struct BufferAllocCell {
    pub length: u64,
    pub status: BufferAllocCellStatus,
}

/// Sum of the lengths of all cells.
pub open spec fn total_length(cells: Seq<BufferAllocCell>) -> int
    decreases cells.len(),
{
    if cells.len() == 0 {
        0
    } else {
        total_length(cells.drop_last()) + cells.last().length as int
    }
}

/// Sum of the lengths of the free cells.
pub open spec fn free_length(cells: Seq<BufferAllocCell>) -> int
    decreases cells.len(),
{
    if cells.len() == 0 {
        0
    } else if cells.last().status == BufferAllocCellStatus::Free {
        free_length(cells.drop_last()) + cells.last().length as int
    } else {
        free_length(cells.drop_last())
    }
}

/// Offset at which cell `i` starts: the lengths of the cells before it.
pub open spec fn offset_of(cells: Seq<BufferAllocCell>, i: int) -> int {
    total_length(cells.take(i))
}

/// `size` rounded up to the next multiple of `align`.
pub open spec fn align_up(size: int, align: int) -> int {
    if size % align == 0 {
        size
    } else {
        size + align - size % align
    }
}

/// A free cell that can hold `need` units.
pub open spec fn fits(cell: BufferAllocCell, need: int) -> bool {
    cell.status == BufferAllocCellStatus::Free && cell.length >= need
}

/// Some cell can hold `need` units.
pub open spec fn has_fit(cells: Seq<BufferAllocCell>, need: int) -> bool {
    exists|i: int| 0 <= i < cells.len() && fits(#[trigger] cells[i], need)
}

/// Cell `i` can hold `need` units and no cell before it can.
pub open spec fn is_first_fit(cells: Seq<BufferAllocCell>, need: int, i: int) -> bool {
    &&& 0 <= i < cells.len()
    &&& fits(cells[i], need)
    &&& forall|j: int| 0 <= j < i ==> !fits(#[trigger] cells[j], need)
}

/// Index of the first cell that can hold `need` units, where there is one.
pub open spec fn first_fit(cells: Seq<BufferAllocCell>, need: int) -> int {
    choose|i: int| is_first_fit(cells, need, i)
}

/// What a free cell becomes when `need` units are taken from its front: an
/// occupied cell of length `need`, followed by what is left of it, if anything,
/// as a free cell.
pub open spec fn filled(cell: BufferAllocCell, need: int) -> Seq<BufferAllocCell> {
    let taken = BufferAllocCell { length: need as u64, status: BufferAllocCellStatus::Occupied };
    if cell.length > need {
        seq![
            taken,
            BufferAllocCell {
                length: (cell.length - need) as u64,
                status: BufferAllocCellStatus::Free,
            },
        ]
    } else {
        seq![taken]
    }
}

/// The table after `need` units were taken from the front of the free cell `i`.
pub open spec fn occupy(cells: Seq<BufferAllocCell>, i: int, need: int) -> Seq<BufferAllocCell> {
    cells.take(i) + filled(cells[i], need) + cells.skip(i + 1)
}

/// The table after a request of `size` units under alignment `align`.
pub open spec fn after_fit(cells: Seq<BufferAllocCell>, align: int, size: int) -> Seq<
    BufferAllocCell,
> {
    let need = align_up(size, align);
    if has_fit(cells, need) {
        occupy(cells, first_fit(cells, need), need)
    } else {
        cells
    }
}

/// The offset that a request of `size` units under alignment `align` is given.
pub open spec fn fit_offset(cells: Seq<BufferAllocCell>, align: int, size: int) -> Option<int> {
    let need = align_up(size, align);
    if has_fit(cells, need) {
        Some(offset_of(cells, first_fit(cells, need)))
    } else {
        None
    }
}

/// Cell `i` is occupied and starts at `position`.
pub open spec fn starts_occupied_at(cells: Seq<BufferAllocCell>, position: int, i: int) -> bool {
    &&& 0 <= i < cells.len()
    &&& cells[i].status == BufferAllocCellStatus::Occupied
    &&& offset_of(cells, i) == position
}

/// Some occupied cell starts at `position`.
pub open spec fn has_occupied_at(cells: Seq<BufferAllocCell>, position: int) -> bool {
    exists|i: int| starts_occupied_at(cells, position, i)
}

/// Cell `i` is the first occupied cell that starts at `position`.
pub open spec fn is_first_occupied_at(cells: Seq<BufferAllocCell>, position: int, i: int) -> bool {
    &&& starts_occupied_at(cells, position, i)
    &&& forall|j: int| 0 <= j < i ==> !starts_occupied_at(cells, position, j)
}

/// Index of the first occupied cell that starts at `position`, where there is one.
pub open spec fn occupied_at(cells: Seq<BufferAllocCell>, position: int) -> int {
    choose|i: int| is_first_occupied_at(cells, position, i)
}

/// First cell of the run that cell `i` is merged into.
pub open spec fn merge_start(cells: Seq<BufferAllocCell>, i: int) -> int {
    if i > 0 && cells[i - 1].status == BufferAllocCellStatus::Free {
        i - 1
    } else {
        i
    }
}

/// Last cell of the run that cell `i` is merged into.
pub open spec fn merge_end(cells: Seq<BufferAllocCell>, i: int) -> int {
    if i + 1 < cells.len() && cells[i + 1].status == BufferAllocCellStatus::Free {
        i + 1
    } else {
        i
    }
}

/// The table after cell `i` was merged with its free neighbours into one free
/// cell that spans them.
pub open spec fn coalesce(cells: Seq<BufferAllocCell>, i: int) -> Seq<BufferAllocCell> {
    let lo = merge_start(cells, i);
    let hi = merge_end(cells, i);
    let merged = BufferAllocCell {
        length: (offset_of(cells, hi + 1) - offset_of(cells, lo)) as u64,
        status: BufferAllocCellStatus::Free,
    };
    cells.take(lo).push(merged) + cells.skip(hi + 1)
}

/// Cell `i` marked free, its length kept.
pub open spec fn mark_free(cells: Seq<BufferAllocCell>, i: int) -> Seq<BufferAllocCell> {
    cells.update(
        i,
        BufferAllocCell { length: cells[i].length, status: BufferAllocCellStatus::Free },
    )
}

/// The table after the allocation at `position` was given back.
pub open spec fn after_free(cells: Seq<BufferAllocCell>, position: int) -> Seq<BufferAllocCell> {
    if has_occupied_at(cells, position) {
        let i = occupied_at(cells, position);
        coalesce(mark_free(cells, i), i)
    } else {
        cells
    }
}

/// No free cell is followed by a free cell.
pub open spec fn no_adjacent_free(cells: Seq<BufferAllocCell>) -> bool {
    forall|i: int, j: int|
        0 <= i && j == i + 1 && j < cells.len() ==> !((#[trigger] cells[i]).status
            == BufferAllocCellStatus::Free && (#[trigger] cells[j]).status
            == BufferAllocCellStatus::Free)
}

/// Every cell but the last has a length that is a multiple of `align`.
pub open spec fn interior_aligned(cells: Seq<BufferAllocCell>, align: int) -> bool {
    forall|i: int| 0 <= i < cells.len() - 1 ==> (#[trigger] cells[i]).length as int % align == 0
}

/// What holds of every table: it has a cell, its lengths add up to a `u64`,
/// free cells are never neighbours, and every cell starts at a multiple of the
/// alignment.
pub open spec fn table_wf(cells: Seq<BufferAllocCell>, align: int) -> bool {
    &&& align > 0
    &&& cells.len() > 0
    &&& total_length(cells) <= u64::MAX
    &&& no_adjacent_free(cells)
    &&& interior_aligned(cells, align)
}

/// One request made of a table.
#[derive(Clone, Copy, PartialEq, Eq, Debug, Structural)]
pub enum TableOp {
    Allocate(u64),
    Free(u64),
}

/// The table after one request.
pub open spec fn apply_op(cells: Seq<BufferAllocCell>, align: int, op: TableOp) -> Seq<
    BufferAllocCell,
> {
    match op {
        TableOp::Allocate(size) => after_fit(cells, align, size as int),
        TableOp::Free(position) => after_free(cells, position as int),
    }
}

/// The table after a sequence of requests, made in order.
pub open spec fn apply_ops(cells: Seq<BufferAllocCell>, align: int, ops: Seq<TableOp>) -> Seq<
    BufferAllocCell,
>
    decreases ops.len(),
{
    if ops.len() == 0 {
        cells
    } else {
        apply_op(apply_ops(cells, align, ops.drop_last()), align, ops.last())
    }
}

/// The lengths of a table add up to a natural number.
pub proof fn lemma_total_nonneg(cells: Seq<BufferAllocCell>)
    ensures
        total_length(cells) >= 0,
    decreases cells.len(),
{
    if cells.len() > 0 {
        lemma_total_nonneg(cells.drop_last());
    }
}

/// The free lengths of a table add up to a natural number, at most the total.
pub proof fn lemma_free_length_bounds(cells: Seq<BufferAllocCell>)
    ensures
        0 <= free_length(cells) <= total_length(cells),
    decreases cells.len(),
{
    if cells.len() > 0 {
        lemma_free_length_bounds(cells.drop_last());
    }
}

/// Lengths add up over a concatenation.
pub proof fn lemma_total_concat(a: Seq<BufferAllocCell>, b: Seq<BufferAllocCell>)
    ensures
        total_length(a + b) == total_length(a) + total_length(b),
        free_length(a + b) == free_length(a) + free_length(b),
    decreases b.len(),
{
    if b.len() == 0 {
        assert(a + b =~= a);
    } else {
        assert((a + b).drop_last() =~= a + b.drop_last());
        assert((a + b).last() == b.last());
        lemma_total_concat(a, b.drop_last());
    }
}

/// A table of one cell has that cell's length.
pub proof fn lemma_total_single(cell: BufferAllocCell)
    ensures
        total_length(seq![cell]) == cell.length,
        free_length(seq![cell]) == if cell.status == BufferAllocCellStatus::Free {
            cell.length as int
        } else {
            0
        },
{
    assert(seq![cell].drop_last() =~= Seq::<BufferAllocCell>::empty());
    assert(total_length(seq![cell].drop_last()) == 0);
    assert(free_length(seq![cell].drop_last()) == 0);
}

/// A cell ends where the next one starts.
pub proof fn lemma_offset_step(cells: Seq<BufferAllocCell>, i: int)
    requires
        0 <= i < cells.len(),
    ensures
        offset_of(cells, i + 1) == offset_of(cells, i) + cells[i].length,
{
    assert(cells.take(i + 1).drop_last() =~= cells.take(i));
    assert(cells.take(i + 1).last() == cells[i]);
}

/// The lengths split at any cell boundary.
pub proof fn lemma_total_split(cells: Seq<BufferAllocCell>, i: int)
    requires
        0 <= i <= cells.len(),
    ensures
        total_length(cells) == offset_of(cells, i) + total_length(cells.skip(i)),
        free_length(cells) == free_length(cells.take(i)) + free_length(cells.skip(i)),
        0 <= offset_of(cells, i) <= total_length(cells),
{
    assert(cells =~= cells.take(i) + cells.skip(i));
    lemma_total_concat(cells.take(i), cells.skip(i));
    lemma_total_nonneg(cells.take(i));
    lemma_total_nonneg(cells.skip(i));
}

/// Rounding up gives the least multiple of the alignment that is no smaller.
pub proof fn lemma_align_up(size: int, align: int)
    requires
        size >= 0,
        align > 0,
    ensures
        size <= align_up(size, align) < size + align,
        align_up(size, align) % align == 0,
{
    let r = size % align;
    let q = size / align;
    assert(size == align * q + r && 0 <= r < align) by (nonlinear_arith)
        requires
            r == size % align,
            q == size / align,
            align > 0,
    ;
    if r != 0 {
        assert((align * (q + 1)) % align == 0) by (nonlinear_arith)
            requires
                align > 0,
        ;
        assert(size + align - r == align * (q + 1)) by (nonlinear_arith)
            requires
                size == align * q + r,
        ;
    }
}

/// The first cell that fits is the one that `first_fit` names.
pub proof fn lemma_first_fit_unique(cells: Seq<BufferAllocCell>, need: int, i: int)
    requires
        is_first_fit(cells, need, i),
    ensures
        has_fit(cells, need),
        first_fit(cells, need) == i,
{
    let k = first_fit(cells, need);
    assert(is_first_fit(cells, need, k));
    if k < i {
        assert(!fits(cells[k], need));
    }
    if i < k {
        assert(!fits(cells[i], need));
    }
}

/// Where a cell fits, a first one does.
pub proof fn lemma_first_fit_exists(cells: Seq<BufferAllocCell>, need: int, k: int)
    requires
        0 <= k < cells.len(),
        fits(cells[k], need),
    ensures
        is_first_fit(cells, need, first_fit(cells, need)),
        0 <= first_fit(cells, need) <= k,
    decreases k,
{
    if exists|j: int| 0 <= j < k && fits(#[trigger] cells[j], need) {
        let j = choose|j: int| 0 <= j < k && fits(#[trigger] cells[j], need);
        lemma_first_fit_exists(cells, need, j);
    } else {
        assert(is_first_fit(cells, need, k));
        lemma_first_fit_unique(cells, need, k);
    }
}

/// The first occupied cell at a position is the one that `occupied_at` names.
pub proof fn lemma_occupied_at_unique(cells: Seq<BufferAllocCell>, position: int, i: int)
    requires
        is_first_occupied_at(cells, position, i),
    ensures
        has_occupied_at(cells, position),
        occupied_at(cells, position) == i,
{
    let k = occupied_at(cells, position);
    assert(is_first_occupied_at(cells, position, k));
    if k < i {
        assert(!starts_occupied_at(cells, position, k));
    }
    if i < k {
        assert(!starts_occupied_at(cells, position, i));
    }
}

/// Where an occupied cell starts at a position, a first one does.
pub proof fn lemma_occupied_at_exists(cells: Seq<BufferAllocCell>, position: int, k: int)
    requires
        starts_occupied_at(cells, position, k),
    ensures
        is_first_occupied_at(cells, position, occupied_at(cells, position)),
    decreases k,
{
    if exists|j: int| 0 <= j < k && starts_occupied_at(cells, position, j) {
        let j = choose|j: int| 0 <= j < k && starts_occupied_at(cells, position, j);
        lemma_occupied_at_exists(cells, position, j);
    } else {
        assert(is_first_occupied_at(cells, position, k));
        lemma_occupied_at_unique(cells, position, k);
    }
}

/// Sums and differences of multiples are multiples.
pub proof fn lemma_multiples_combine(a: int, b: int, m: int)
    requires
        m > 0,
        a % m == 0,
        b % m == 0,
    ensures
        (a + b) % m == 0,
        (a - b) % m == 0,
{
    lemma_add_mod_noop(a, b, m);
    lemma_sub_mod_noop(a, b, m);
    lemma_small_mod(0, m as nat);
}

/// Every cell of a table starts at a multiple of the alignment.
pub proof fn lemma_offsets_aligned(cells: Seq<BufferAllocCell>, align: int, i: int)
    requires
        align > 0,
        interior_aligned(cells, align),
        0 <= i < cells.len(),
    ensures
        offset_of(cells, i) % align == 0,
    decreases i,
{
    if i == 0 {
        assert(cells.take(0).len() == 0);
        lemma_small_mod(0, align as nat);
    } else {
        lemma_offsets_aligned(cells, align, i - 1);
        lemma_offset_step(cells, i - 1);
        lemma_multiples_combine(offset_of(cells, i - 1), cells[i - 1].length as int, align);
    }
}


/// Where every cell is free, the free lengths are all the lengths.
pub proof fn lemma_all_free(cells: Seq<BufferAllocCell>)
    requires
        forall|k: int| 0 <= k < cells.len() ==> (#[trigger] cells[k]).status == BufferAllocCellStatus::Free,
    ensures
        free_length(cells) == total_length(cells),
    decreases cells.len(),
{
    if cells.len() > 0 {
        let init = cells.drop_last();
        assert forall|k: int| 0 <= k < init.len() implies (#[trigger] init[k]).status
            == BufferAllocCellStatus::Free by {
            assert(init[k] == cells[k]);
        }
        lemma_all_free(init);
    }
}

/// Lengths after a run of cells was replaced by other cells.
pub proof fn lemma_splice_lengths(
    cells: Seq<BufferAllocCell>,
    lo: int,
    hi: int,
    mid: Seq<BufferAllocCell>,
)
    requires
        0 <= lo <= hi <= cells.len(),
    ensures
        total_length(cells.take(lo) + mid + cells.skip(hi)) == total_length(cells) - total_length(
            cells.subrange(lo, hi),
        ) + total_length(mid),
        free_length(cells.take(lo) + mid + cells.skip(hi)) == free_length(cells) - free_length(
            cells.subrange(lo, hi),
        ) + free_length(mid),
        offset_of(cells, hi) - offset_of(cells, lo) == total_length(cells.subrange(lo, hi)),
{
    let pre = cells.take(lo);
    let run = cells.subrange(lo, hi);
    let post = cells.skip(hi);
    assert(cells =~= pre + run + post);
    assert(cells.take(hi) =~= pre + run);
    lemma_total_concat(pre, run);
    lemma_total_concat(pre + run, post);
    lemma_total_concat(pre, mid);
    lemma_total_concat(pre + mid, post);
}

/// Lengths of a table of two cells.
pub proof fn lemma_total_pair(a: BufferAllocCell, b: BufferAllocCell)
    ensures
        total_length(seq![a, b]) == a.length + b.length,
        free_length(seq![a, b]) == free_length(seq![a]) + free_length(seq![b]),
{
    assert(seq![a, b] =~= seq![a] + seq![b]);
    lemma_total_concat(seq![a], seq![b]);
    lemma_total_single(a);
    lemma_total_single(b);
}

/// Taking `need` units from a free cell keeps the lengths of the table, and
/// moves `need` units from free to occupied.
pub proof fn lemma_occupy_lengths(cells: Seq<BufferAllocCell>, i: int, need: int)
    requires
        0 <= i < cells.len(),
        fits(cells[i], need),
        need >= 0,
    ensures
        total_length(occupy(cells, i, need)) == total_length(cells),
        free_length(occupy(cells, i, need)) == free_length(cells) - need,
{
    let mid = filled(cells[i], need);
    lemma_splice_lengths(cells, i, i + 1, mid);
    assert(cells.subrange(i, i + 1) =~= seq![cells[i]]);
    lemma_total_single(cells[i]);
    lemma_total_single(mid[0]);
    if cells[i].length > need {
        lemma_total_pair(mid[0], mid[1]);
        lemma_total_single(mid[1]);
        assert(mid =~= seq![mid[0], mid[1]]);
    } else {
        assert(mid =~= seq![mid[0]]);
    }
}

/// Taking an aligned number of units from a free cell keeps free cells apart
/// and cells aligned.
pub proof fn lemma_occupy_shape(cells: Seq<BufferAllocCell>, align: int, i: int, need: int)
    requires
        align > 0,
        no_adjacent_free(cells),
        interior_aligned(cells, align),
        0 <= i < cells.len(),
        fits(cells[i], need),
        need >= 0,
        need % align == 0,
    ensures
        no_adjacent_free(occupy(cells, i, need)),
        interior_aligned(occupy(cells, i, need), align),
        occupy(cells, i, need).len() > 0,
{
    let r = occupy(cells, i, need);
    let mid = filled(cells[i], need);
    let d = mid.len() as int - 1;
    assert(r.len() == cells.len() + d);
    assert(forall|k: int| 0 <= k < i ==> #[trigger] r[k] == cells[k]);
    assert(forall|k: int| i + d < k < r.len() ==> #[trigger] r[k] == cells[k - d]);
    assert(r[i] == mid[0]);
    if d == 1 {
        assert(r[i + 1] == mid[1]);
        if i < cells.len() - 1 {
            lemma_multiples_combine(cells[i].length as int, need, align);
        }
    }
    assert forall|k: int, l: int| 0 <= k && l == k + 1 && l < r.len() implies !((#[trigger] r[k]).status
        == BufferAllocCellStatus::Free && (#[trigger] r[l]).status
        == BufferAllocCellStatus::Free) by {
        if l < i {
            assert(cells[k].status != BufferAllocCellStatus::Free || cells[l].status
                != BufferAllocCellStatus::Free);
        } else if k == i + d {
            assert(cells[i].status != BufferAllocCellStatus::Free || cells[i + 1].status
                != BufferAllocCellStatus::Free);
        } else if k > i + d {
            assert(cells[k - d].status != BufferAllocCellStatus::Free || cells[l - d].status
                != BufferAllocCellStatus::Free);
        }
    }
    assert forall|k: int| 0 <= k < r.len() - 1 implies (#[trigger] r[k]).length as int % align
        == 0 by {
        if k < i {
            assert(cells[k].length as int % align == 0);
        } else if k > i + d {
            assert(cells[k - d].length as int % align == 0);
        }
    }
}

/// Replacing cell `i` and its free neighbours by one free cell keeps free cells
/// apart and cells aligned, where the new cell is as long as the cells it
/// replaces.
pub proof fn lemma_merge_shape(
    cells: Seq<BufferAllocCell>,
    align: int,
    i: int,
    lo: int,
    hi: int,
    merged: BufferAllocCell,
)
    requires
        align > 0,
        no_adjacent_free(cells),
        interior_aligned(cells, align),
        0 <= i < cells.len(),
        cells[i].status == BufferAllocCellStatus::Occupied,
        lo == merge_start(mark_free(cells, i), i),
        hi == merge_end(mark_free(cells, i), i),
        merged.status == BufferAllocCellStatus::Free,
        hi + 1 < cells.len() ==> merged.length as int % align == 0,
    ensures
        no_adjacent_free(cells.take(lo).push(merged) + cells.skip(hi + 1)),
        interior_aligned(cells.take(lo).push(merged) + cells.skip(hi + 1), align),
{
    let r = cells.take(lo).push(merged) + cells.skip(hi + 1);
    let d = hi - lo;
    assert(r.len() == cells.len() - d);
    assert(forall|k: int| 0 <= k < lo ==> #[trigger] r[k] == cells[k]);
    assert(forall|k: int| lo < k < r.len() ==> #[trigger] r[k] == cells[k + d]);
    assert(r[lo] == merged);
    assert forall|k: int, l: int| 0 <= k && l == k + 1 && l < r.len() implies !((#[trigger] r[k]).status
        == BufferAllocCellStatus::Free && (#[trigger] r[l]).status
        == BufferAllocCellStatus::Free) by {
        if l < lo {
            assert(cells[k].status != BufferAllocCellStatus::Free || cells[l].status
                != BufferAllocCellStatus::Free);
        } else if l == lo {
            if lo < i {
                assert(cells[k].status != BufferAllocCellStatus::Free || cells[l].status
                    != BufferAllocCellStatus::Free);
            }
        } else if k == lo {
            if hi > i {
                assert(cells[hi].status != BufferAllocCellStatus::Free || cells[hi + 1].status
                    != BufferAllocCellStatus::Free);
            }
        } else {
            assert(cells[k + d].status != BufferAllocCellStatus::Free || cells[l + d].status
                != BufferAllocCellStatus::Free);
        }
    }
    assert forall|k: int| 0 <= k < r.len() - 1 implies (#[trigger] r[k]).length as int % align
        == 0 by {
        if k < lo {
            assert(cells[k].length as int % align == 0);
        } else if k > lo {
            assert(cells[k + d].length as int % align == 0);
        }
    }
}

/// Taking an aligned number of units from a free cell keeps the table well
/// formed and its lengths, and moves `need` units from free to occupied.
pub proof fn lemma_occupy(cells: Seq<BufferAllocCell>, align: int, i: int, need: int)
    requires
        table_wf(cells, align),
        0 <= i < cells.len(),
        fits(cells[i], need),
        need >= 0,
        need % align == 0,
    ensures
        table_wf(occupy(cells, i, need), align),
        total_length(occupy(cells, i, need)) == total_length(cells),
        free_length(occupy(cells, i, need)) == free_length(cells) - need,
{
    lemma_occupy_lengths(cells, i, need);
    lemma_occupy_shape(cells, align, i, need);
}

/// Giving back an occupied cell keeps the table well formed and its lengths,
/// and moves the cell's length from occupied to free.
pub proof fn lemma_release(cells: Seq<BufferAllocCell>, align: int, i: int)
    requires
        table_wf(cells, align),
        0 <= i < cells.len(),
        cells[i].status == BufferAllocCellStatus::Occupied,
    ensures
        table_wf(coalesce(mark_free(cells, i), i), align),
        total_length(coalesce(mark_free(cells, i), i)) == total_length(cells),
        free_length(coalesce(mark_free(cells, i), i)) == free_length(cells) + cells[i].length,
{
    let c = mark_free(cells, i);
    let lo = merge_start(c, i);
    let hi = merge_end(c, i);
    let m = offset_of(c, hi + 1) - offset_of(c, lo);
    let merged = BufferAllocCell { length: m as u64, status: BufferAllocCellStatus::Free };
    let run = c.subrange(lo, hi + 1);

    // marking the cell free keeps the lengths
    lemma_splice_lengths(cells, i, i + 1, seq![c[i]]);
    assert(c =~= cells.take(i) + seq![c[i]] + cells.skip(i + 1));
    assert(cells.subrange(i, i + 1) =~= seq![cells[i]]);
    lemma_total_single(cells[i]);
    lemma_total_single(c[i]);

    // the run that is merged is free and no longer than the table
    lemma_splice_lengths(c, lo, hi + 1, seq![merged]);
    lemma_total_nonneg(run);
    lemma_total_split(c, lo);
    lemma_total_split(c, hi + 1);
    assert forall|k: int| 0 <= k < run.len() implies (#[trigger] run[k]).status
        == BufferAllocCellStatus::Free by {
        assert(run[k] == c[lo + k]);
    }
    lemma_all_free(run);
    lemma_total_single(merged);

    if hi + 1 < cells.len() {
        assert forall|j: int| 0 <= j < c.len() - 1 implies (#[trigger] c[j]).length as int % align
            == 0 by {
            assert(c[j].length == cells[j].length);
        }
        lemma_offsets_aligned(c, align, lo);
        lemma_offsets_aligned(c, align, hi + 1);
        lemma_multiples_combine(offset_of(c, hi + 1), offset_of(c, lo), align);
    }
    lemma_merge_shape(cells, align, i, lo, hi, merged);
    assert(c.take(lo) =~= cells.take(lo));
    assert(c.skip(hi + 1) =~= cells.skip(hi + 1));
    assert(coalesce(c, i) =~= c.take(lo) + seq![merged] + c.skip(hi + 1));
}

/// A sub-allocator over one backing allocation: the cells in ascending offset
/// order, and the alignment that every allocation is rounded up to.
pub struct BufferAllocTable {
    allocs: Vec<BufferAllocCell>,
    alignment_requirement: u64,
}

impl View for BufferAllocTable {
    type V = Seq<BufferAllocCell>;

    closed spec fn view(&self) -> Seq<BufferAllocCell> {
        self.allocs@
    }
}

impl BufferAllocTable {
    /// The alignment that every allocation of this table is rounded up to.
    pub closed spec fn alignment(&self) -> u64 {
        self.alignment_requirement
    }

    /// The size of the backing allocation: the lengths of all cells.
    pub open spec fn capacity(&self) -> int {
        total_length(self@)
    }

    /// What holds of a table between calls.
    pub open spec fn wf(&self) -> bool {
        table_wf(self@, self.alignment() as int)
    }

    /// A table of one free cell that spans `size` units.
    pub fn new(size: u64, alignment_requirement: u64) -> (table: Self)
        requires
            alignment_requirement > 0,
        ensures
            table.wf(),
            table@ == seq![BufferAllocCell { length: size, status: BufferAllocCellStatus::Free }],
            table.alignment() == alignment_requirement,
            table.capacity() == size,
    {
        let mut allocs: Vec<BufferAllocCell> = Vec::new();
        allocs.push(BufferAllocCell { length: size, status: BufferAllocCellStatus::Free });
        proof {
            lemma_total_single(allocs@[0]);
            assert(allocs@ =~= seq![allocs@[0]]);
        }
        BufferAllocTable { allocs, alignment_requirement }
    }

    /// The cells in ascending offset order.
    pub fn cells(&self) -> (cells: &Vec<BufferAllocCell>)
        ensures
            cells@ == self@,
    {
        &self.allocs
    }

    /// The alignment that every allocation of this table is rounded up to.
    pub fn alignment_requirement(&self) -> (align: u64)
        ensures
            align == self.alignment(),
    {
        self.alignment_requirement
    }

    /// Allocates `req_size` units, rounded up to the alignment, from the first
    /// free cell that is long enough, and returns the offset of the allocation.
    /// What is left of the cell stays free behind the allocation. Returns `None`
    /// and leaves the table as it is where no free cell is long enough.
    pub fn try_fit(&mut self, req_size: u64) -> (offset: Option<u64>)
        requires
            old(self).wf(),
        ensures
            final(self).wf(),
            final(self).alignment() == old(self).alignment(),
            final(self).capacity() == old(self).capacity(),
            final(self)@ == after_fit(old(self)@, old(self).alignment() as int, req_size as int),
            match offset {
                Some(at) => fit_offset(old(self)@, old(self).alignment() as int, req_size as int)
                    == Some(at as int) && at % old(self).alignment() == 0,
                None => fit_offset(old(self)@, old(self).alignment() as int, req_size as int)
                    is None,
            },
    {
        let ghost cells0 = self.allocs@;
        let ghost align = self.alignment_requirement as int;
        proof {
            lemma_align_up(req_size as int, align);
        }
        let align_remainder = req_size % self.alignment_requirement;
        let need: u64 = if align_remainder > 0 {
            match req_size.checked_add(self.alignment_requirement - align_remainder) {
                Some(rounded) => rounded,
                None => {
                    assert(!has_fit(cells0, align_up(req_size as int, align)));
                    return None;
                },
            }
        } else {
            req_size
        };
        assert(need as int == align_up(req_size as int, align));

        let n = self.allocs.len();
        let mut offset: u64 = 0;
        let mut index: usize = 0;
        assert(cells0.take(0).len() == 0);
        while index < n
            invariant
                self.allocs@ == cells0,
                cells0 == old(self).allocs@,
                self.alignment_requirement == old(self).alignment_requirement,
                self.alignment_requirement as int == align,
                table_wf(cells0, align),
                n == cells0.len(),
                index <= n,
                offset as int == offset_of(cells0, index as int),
                need as int == align_up(req_size as int, align),
                need as int % align == 0,
                forall|j: int| 0 <= j < index ==> !fits(#[trigger] cells0[j], need as int),
            decreases n - index,
        {
            let cell = self.allocs[index];
            if cell.status == BufferAllocCellStatus::Free && cell.length >= need {
                let remaining_length = cell.length - need;
                self.allocs[index] = BufferAllocCell {
                    length: need,
                    status: BufferAllocCellStatus::Occupied,
                };
                if remaining_length > 0 {
                    self.allocs.insert(
                        index + 1,
                        BufferAllocCell {
                            length: remaining_length,
                            status: BufferAllocCellStatus::Free,
                        },
                    );
                }
                proof {
                    assert(is_first_fit(cells0, need as int, index as int));
                    lemma_first_fit_unique(cells0, need as int, index as int);
                    lemma_occupy(cells0, align, index as int, need as int);
                    lemma_offsets_aligned(cells0, align, index as int);
                    assert(self.allocs@ =~= occupy(cells0, index as int, need as int));
                }
                return Some(offset);
            }
            proof {
                lemma_offset_step(cells0, index as int);
                lemma_total_split(cells0, index as int + 1);
            }
            offset = offset + cell.length;
            index = index + 1;
        }
        assert(!has_fit(cells0, need as int));
        None
    }

    /// Gives back the allocation that starts at `position`: its cell becomes
    /// free and is merged with the free cells next to it. Leaves the table as it
    /// is where no occupied cell starts at `position`.
    pub fn free(&mut self, position: u64)
        requires
            old(self).wf(),
        ensures
            final(self).wf(),
            final(self).alignment() == old(self).alignment(),
            final(self).capacity() == old(self).capacity(),
            final(self)@ == after_free(old(self)@, position as int),
    {
        let ghost cells0 = self.allocs@;
        let ghost align = self.alignment_requirement as int;
        let n = self.allocs.len();
        let mut offset: u64 = 0;
        let mut index: usize = 0;
        assert(cells0.take(0).len() == 0);
        while index < n
            invariant
                self.allocs@ == cells0,
                cells0 == old(self).allocs@,
                self.alignment_requirement == old(self).alignment_requirement,
                self.alignment_requirement as int == align,
                table_wf(cells0, align),
                n == cells0.len(),
                index <= n,
                offset as int == offset_of(cells0, index as int),
                forall|j: int| 0 <= j < index ==> !starts_occupied_at(cells0, position as int, j),
            decreases n - index,
        {
            let cell = self.allocs[index];
            if position == offset && cell.status == BufferAllocCellStatus::Occupied {
                self.allocs[index] = BufferAllocCell {
                    length: cell.length,
                    status: BufferAllocCellStatus::Free,
                };
                proof {
                    assert(is_first_occupied_at(cells0, position as int, index as int));
                    lemma_occupied_at_unique(cells0, position as int, index as int);
                    lemma_release(cells0, align, index as int);
                    assert(self.allocs@ =~= mark_free(cells0, index as int));
                    lemma_splice_lengths(cells0, index as int, index as int + 1, seq![self.allocs@[index as int]]);
                    assert(self.allocs@ =~= cells0.take(index as int) + seq![self.allocs@[index as int]] + cells0.skip(index as int + 1));
                    assert(cells0.subrange(index as int, index as int + 1) =~= seq![cells0[index as int]]);
                    lemma_total_single(cells0[index as int]);
                    lemma_total_single(self.allocs@[index as int]);
                }
                self.collapse_around(index);
                return ;
            }
            proof {
                lemma_offset_step(cells0, index as int);
                lemma_total_split(cells0, index as int + 1);
            }
            offset = offset + cell.length;
            index = index + 1;
        }
        assert(!has_occupied_at(cells0, position as int));
    }

    /// Makes one request of the table, and returns the offset that an allocation
    /// was given.
    pub fn apply(&mut self, op: TableOp) -> (offset: Option<u64>)
        requires
            old(self).wf(),
        ensures
            final(self).wf(),
            final(self).alignment() == old(self).alignment(),
            final(self).capacity() == old(self).capacity(),
            final(self)@ == apply_op(old(self)@, old(self).alignment() as int, op),
            match offset {
                Some(at) => op matches TableOp::Allocate(size) && fit_offset(
                    old(self)@,
                    old(self).alignment() as int,
                    size as int,
                ) == Some(at as int),
                None => match op {
                    TableOp::Allocate(size) => fit_offset(
                        old(self)@,
                        old(self).alignment() as int,
                        size as int,
                    ) is None,
                    TableOp::Free(_) => true,
                },
            },
    {
        match op {
            TableOp::Allocate(size) => self.try_fit(size),
            TableOp::Free(position) => {
                self.free(position);
                None
            },
        }
    }

    /// Merges the free cell `index` with the free cells next to it.
    fn collapse_around(&mut self, index: usize)
        requires
            index < old(self).allocs@.len(),
            old(self).allocs@[index as int].status == BufferAllocCellStatus::Free,
            total_length(old(self).allocs@) <= u64::MAX,
        ensures
            final(self).allocs@ == coalesce(old(self).allocs@, index as int),
            final(self).alignment_requirement == old(self).alignment_requirement,
    {
        let ghost cells0 = self.allocs@;
        let ghost lo = merge_start(cells0, index as int);
        let ghost hi = merge_end(cells0, index as int);
        let mut length: u64 = self.allocs[index].length;
        let mut n_to_collapse: usize = 0;
        let mut first_idx: usize = index;
        proof {
            lemma_splice_lengths(cells0, lo, hi + 1, Seq::empty());
            lemma_total_split(cells0, lo);
            lemma_total_split(cells0, hi + 1);
            lemma_offset_step(cells0, index as int);
            if lo < index {
                lemma_offset_step(cells0, lo);
            }
            if hi > index {
                lemma_offset_step(cells0, hi);
            }
        }
        let n = self.allocs.len();
        if index + 1 < n {
            let next = self.allocs[index + 1];
            if next.status == BufferAllocCellStatus::Free {
                n_to_collapse = n_to_collapse + 1;
                length = length + next.length;
            }
        }
        if index > 0 {
            let previous = self.allocs[index - 1];
            if previous.status == BufferAllocCellStatus::Free {
                n_to_collapse = n_to_collapse + 1;
                first_idx = index - 1;
                length = length + previous.length;
            }
        }
        assert(first_idx as int == lo && first_idx + n_to_collapse == hi);
        assert(length as int == offset_of(cells0, hi + 1) - offset_of(cells0, lo));
        self.allocs[first_idx] = BufferAllocCell { length, status: BufferAllocCellStatus::Free };
        let ghost base = self.allocs@;
        let mut k: usize = n_to_collapse;
        while k > 0
            invariant
                k <= n_to_collapse,
                first_idx + n_to_collapse < base.len(),
                base.len() == n,
                self.allocs@ =~= base.take(first_idx + k + 1) + base.skip(
                    first_idx + n_to_collapse + 1,
                ),
                self.alignment_requirement == old(self).alignment_requirement,
            decreases k,
        {
            self.allocs.remove(first_idx + k);
            k = k - 1;
        }
        assert(self.allocs@ =~= coalesce(cells0, index as int));
    }
}

/// A free cell is no longer than the free lengths of its table.
pub proof fn lemma_free_cell_bounded(cells: Seq<BufferAllocCell>, i: int)
    requires
        0 <= i < cells.len(),
        cells[i].status == BufferAllocCellStatus::Free,
    ensures
        cells[i].length <= free_length(cells),
{
    lemma_splice_lengths(cells, i, i + 1, Seq::empty());
    assert(cells.subrange(i, i + 1) =~= seq![cells[i]]);
    lemma_total_single(cells[i]);
    lemma_free_length_bounds(cells.take(i) + Seq::empty() + cells.skip(i + 1));
}

/// A request leaves a well-formed table well formed and as long as it was.
pub proof fn lemma_op_keeps_table(cells: Seq<BufferAllocCell>, align: int, op: TableOp)
    requires
        table_wf(cells, align),
    ensures
        table_wf(apply_op(cells, align, op), align),
        total_length(apply_op(cells, align, op)) == total_length(cells),
{
    match op {
        TableOp::Allocate(size) => {
            let need = align_up(size as int, align);
            lemma_align_up(size as int, align);
            if has_fit(cells, need) {
                let k = choose|k: int| 0 <= k < cells.len() && fits(#[trigger] cells[k], need);
                lemma_first_fit_exists(cells, need, k);
                lemma_occupy(cells, align, first_fit(cells, need), need);
            }
        },
        TableOp::Free(position) => {
            if has_occupied_at(cells, position as int) {
                let k = choose|k: int| starts_occupied_at(cells, position as int, k);
                lemma_occupied_at_exists(cells, position as int, k);
                lemma_release(cells, align, occupied_at(cells, position as int));
            }
        },
    }
}

/// Whatever is allocated and freed, in whatever order, the lengths of the cells
/// add up to the capacity that the table started with, and the table stays
/// well formed.
pub proof fn lemma_requests_keep_capacity(
    cells: Seq<BufferAllocCell>,
    align: int,
    ops: Seq<TableOp>,
)
    requires
        table_wf(cells, align),
    ensures
        table_wf(apply_ops(cells, align, ops), align),
        total_length(apply_ops(cells, align, ops)) == total_length(cells),
    decreases ops.len(),
{
    if ops.len() > 0 {
        lemma_requests_keep_capacity(cells, align, ops.drop_last());
        lemma_op_keeps_table(apply_ops(cells, align, ops.drop_last()), align, ops.last());
    }
}

/// After a free, no two neighbouring cells are both free.
pub proof fn lemma_free_keeps_free_cells_apart(
    cells: Seq<BufferAllocCell>,
    align: int,
    position: u64,
)
    requires
        table_wf(cells, align),
    ensures
        no_adjacent_free(after_free(cells, position as int)),
{
    lemma_op_keeps_table(cells, align, TableOp::Free(position));
}

/// A request for more than the table has free is refused, and the table stays
/// as it is.
pub proof fn lemma_no_fit_beyond_free_capacity(
    cells: Seq<BufferAllocCell>,
    align: int,
    size: int,
)
    requires
        table_wf(cells, align),
        size > free_length(cells),
    ensures
        fit_offset(cells, align, size) is None,
        after_fit(cells, align, size) == cells,
{
    lemma_free_length_bounds(cells);
    lemma_align_up(size, align);
    let need = align_up(size, align);
    assert forall|i: int| 0 <= i < cells.len() implies !fits(#[trigger] cells[i], need) by {
        if cells[i].status == BufferAllocCellStatus::Free {
            lemma_free_cell_bounded(cells, i);
        }
    }
}

/// An allocation takes the requested size rounded up to the alignment out of
/// the free lengths, and starts at a multiple of the alignment.
pub proof fn lemma_fit_takes_aligned_size(cells: Seq<BufferAllocCell>, align: int, size: int)
    requires
        table_wf(cells, align),
        size >= 0,
        fit_offset(cells, align, size) is Some,
    ensures
        free_length(after_fit(cells, align, size)) == free_length(cells) - align_up(size, align),
        align_up(size, align) % align == 0,
        fit_offset(cells, align, size).unwrap() % align == 0,
{
    let need = align_up(size, align);
    lemma_align_up(size, align);
    let k = choose|k: int| 0 <= k < cells.len() && fits(#[trigger] cells[k], need);
    lemma_first_fit_exists(cells, need, k);
    lemma_occupy(cells, align, first_fit(cells, need), need);
    lemma_offsets_aligned(cells, align, first_fit(cells, need));
}

/// Every cell has a length.
pub open spec fn no_empty_cell(cells: Seq<BufferAllocCell>) -> bool {
    forall|k: int| 0 <= k < cells.len() ==> (#[trigger] cells[k]).length > 0
}

/// Where every cell has a length, a later cell starts behind an earlier one.
pub proof fn lemma_offsets_increase(cells: Seq<BufferAllocCell>, j: int, i: int)
    requires
        no_empty_cell(cells),
        0 <= j < i <= cells.len(),
    ensures
        offset_of(cells, j) < offset_of(cells, i),
    decreases i - j,
{
    lemma_offset_step(cells, i - 1);
    if j < i - 1 {
        lemma_offsets_increase(cells, j, i - 1);
    }
}

/// An allocation is the first occupied cell at its offset, where every cell of
/// the table had a length.
pub proof fn lemma_fit_is_found(cells: Seq<BufferAllocCell>, i: int, need: int)
    requires
        no_empty_cell(cells),
        0 <= i < cells.len(),
        fits(cells[i], need),
        need >= 0,
    ensures
        is_first_occupied_at(occupy(cells, i, need), offset_of(cells, i), i),
{
    let taken = occupy(cells, i, need);
    assert(taken[i] == filled(cells[i], need)[0]);
    assert(taken.take(i) =~= cells.take(i));
    assert forall|j: int| 0 <= j < i implies !starts_occupied_at(
        taken,
        offset_of(cells, i),
        j,
    ) by {
        assert(taken.take(j) =~= cells.take(j));
        lemma_offsets_increase(cells, j, i);
    }
}

/// The cell of an allocation, marked free, merges with what was left of the
/// cell that it was taken from, and with nothing else.
pub proof fn lemma_fit_merges_back(cells: Seq<BufferAllocCell>, i: int, need: int)
    requires
        no_adjacent_free(cells),
        0 <= i < cells.len(),
        fits(cells[i], need),
        need >= 0,
    ensures
        merge_start(mark_free(occupy(cells, i, need), i), i) == i,
        merge_end(mark_free(occupy(cells, i, need), i), i) == i + filled(cells[i], need).len() - 1,
        mark_free(occupy(cells, i, need), i).take(i) == cells.take(i),
        mark_free(occupy(cells, i, need), i).skip(i + filled(cells[i], need).len()) == cells.skip(
            i + 1,
        ),
        mark_free(occupy(cells, i, need), i)[i].length == need,
        filled(cells[i], need).len() == 2 ==> mark_free(occupy(cells, i, need), i)[i + 1].length
            == cells[i].length - need,
{
    let taken = occupy(cells, i, need);
    let mid = filled(cells[i], need);
    let freed = mark_free(taken, i);
    assert(taken.len() == cells.len() + mid.len() - 1);
    assert(taken[i] == mid[0]);
    if i > 0 {
        assert(freed[i - 1] == cells[i - 1]);
        assert(cells[i - 1].status != BufferAllocCellStatus::Free || cells[i].status
            != BufferAllocCellStatus::Free);
    }
    if mid.len() == 2 {
        assert(taken[i + 1] == mid[1]);
    } else if i + 1 < cells.len() {
        assert(freed[i + 1] == cells[i + 1]);
        assert(cells[i].status != BufferAllocCellStatus::Free || cells[i + 1].status
            != BufferAllocCellStatus::Free);
    }
    assert(freed.take(i) =~= cells.take(i));
    assert(freed.skip(i + mid.len()) =~= cells.skip(i + 1));
}

/// Giving an allocation back undoes it: where every cell of a table has a
/// length, freeing the offset that a request of some units was given leaves
/// the table as it was before the request.
pub proof fn lemma_free_undoes_fit(cells: Seq<BufferAllocCell>, align: int, size: int)
    requires
        table_wf(cells, align),
        no_empty_cell(cells),
        size > 0,
        fit_offset(cells, align, size) is Some,
    ensures
        after_free(after_fit(cells, align, size), fit_offset(cells, align, size).unwrap()) == cells,
{
    let need = align_up(size, align);
    lemma_align_up(size, align);
    let witness = choose|k: int| 0 <= k < cells.len() && fits(#[trigger] cells[k], need);
    lemma_first_fit_exists(cells, need, witness);
    let i = first_fit(cells, need);
    let taken = occupy(cells, i, need);
    let freed = mark_free(taken, i);
    let d = filled(cells[i], need).len() as int - 1;

    lemma_fit_is_found(cells, i, need);
    lemma_occupied_at_unique(taken, offset_of(cells, i), i);
    lemma_fit_merges_back(cells, i, need);
    lemma_offset_step(freed, i);
    if d == 1 {
        lemma_offset_step(freed, i + 1);
    }
    assert(coalesce(freed, i) =~= cells.take(i).push(cells[i]) + cells.skip(i + 1));
    assert(cells.take(i).push(cells[i]) + cells.skip(i + 1) =~= cells);
}

} // verus!
