use vstd::prelude::*;

verus! {

/// Number of columns of the board.
pub const WIDTH: isize = 20;

/// Number of rows of the board; row 0 is the floor.
pub const HEIGHT: isize = 30;

/// A row of `WIDTH` empty cells.
pub open spec fn empty_row() -> Seq<bool> {
    Seq::new(WIDTH as nat, |i: int| false)
}

/// `k` empty rows.
pub open spec fn empty_rows(k: nat) -> Seq<Seq<bool>> {
    Seq::new(k, |i: int| empty_row())
}

/// Every cell of the row is occupied.
pub open spec fn full(row: Seq<bool>) -> bool {
    forall|i: int| 0 <= i < row.len() ==> row[i]
}

/// The rows that are not full, bottom to top, in their original order.
pub open spec fn kept(rows: Seq<Seq<bool>>) -> Seq<Seq<bool>>
    decreases rows.len(),
{
    if rows.len() == 0 {
        rows
    } else {
        let rest = kept(rows.drop_last());
        if full(rows.last()) {
            rest
        } else {
            rest.push(rows.last())
        }
    }
}

/// Number of full rows.
pub open spec fn full_count(rows: Seq<Seq<bool>>) -> int {
    rows.len() - kept(rows).len()
}

/// The board after every full row is removed and an empty row added at the top for each.
pub open spec fn cleared(rows: Seq<Seq<bool>>) -> Seq<Seq<bool>> {
    kept(rows) + empty_rows(full_count(rows) as nat)
}

/// The cell `p` (column, row) lies on the board.
pub open spec fn in_bounds(p: (int, int)) -> bool {
    0 <= p.0 < WIDTH && 0 <= p.1 < HEIGHT
}

/// Every cell of `cs` lies on the board.
pub open spec fn all_in_bounds(cs: Seq<(int, int)>) -> bool {
    forall|i: int| 0 <= i < cs.len() ==> in_bounds(#[trigger] cs[i])
}

/// Some cell of `cs` lies on the board and is occupied there.
pub open spec fn overlaps(rows: Seq<Seq<bool>>, cs: Seq<(int, int)>) -> bool {
    exists|i: int| 0 <= i < cs.len() && in_bounds(#[trigger] cs[i]) && rows[cs[i].1][cs[i].0]
}

/// The board with cell `p` marked occupied.
pub open spec fn occupy(rows: Seq<Seq<bool>>, p: (int, int)) -> Seq<Seq<bool>> {
    rows.update(p.1, rows[p.1].update(p.0, true))
}

/// The board with the first `k` cells of `cs` marked occupied.
pub open spec fn commit(rows: Seq<Seq<bool>>, cs: Seq<(int, int)>, k: int) -> Seq<Seq<bool>>
    decreases k,
{
    if k <= 0 {
        rows
    } else {
        occupy(commit(rows, cs, k - 1), cs[k - 1])
    }
}

/// The board has `HEIGHT` rows of `WIDTH` cells.
pub open spec fn board_shape(rows: Seq<Seq<bool>>) -> bool {
    rows.len() == HEIGHT && forall|i: int| 0 <= i < rows.len() ==> #[trigger] rows[i].len() == WIDTH
}

/// Number of occupied cells in a row.
pub open spec fn row_occupied(row: Seq<bool>) -> int
    decreases row.len(),
{
    if row.len() == 0 {
        0
    } else {
        row_occupied(row.drop_last()) + if row.last() {
            1int
        } else {
            0int
        }
    }
}

/// Number of occupied cells on the board.
pub open spec fn occupied(rows: Seq<Seq<bool>>) -> int
    decreases rows.len(),
{
    if rows.len() == 0 {
        0
    } else {
        occupied(rows.drop_last()) + row_occupied(rows.last())
    }
}

/// Whether every cell of `row` is occupied.
pub fn row_full(row: &Vec<bool>) -> (r: bool)
    ensures
        r == full(row@),
{
    let mut i: usize = 0;
    while i < row.len()
        invariant
            i <= row.len(),
            forall|j: int| 0 <= j < i ==> row@[j],
        decreases row.len() - i,
    {
        if !row[i] {
            return false;
        }
        i = i + 1;
    }
    true
}

/// A fresh row of `WIDTH` empty cells.
pub fn new_row() -> (r: Vec<bool>)
    ensures
        r@ == empty_row(),
{
    let mut r: Vec<bool> = Vec::new();
    let mut i: isize = 0;
    while i < WIDTH
        invariant
            0 <= i <= WIDTH,
            r@ == Seq::new(i as nat, |j: int| false),
        decreases WIDTH - i,
    {
        r.push(false);
        i = i + 1;
        assert(r@ =~= Seq::new(i as nat, |j: int| false));
    }
    assert(r@ =~= empty_row());
    r
}

/// Clearing never adds rows.
pub proof fn lemma_kept_len(rows: Seq<Seq<bool>>)
    ensures
        kept(rows).len() <= rows.len(),
    decreases rows.len(),
{
    if rows.len() > 0 {
        lemma_kept_len(rows.drop_last());
    }
}

/// With no full row, clearing keeps every row.
proof fn lemma_kept_none(rows: Seq<Seq<bool>>)
    requires
        forall|i: int| 0 <= i < rows.len() ==> !full(#[trigger] rows[i]),
    ensures
        kept(rows) == rows,
    decreases rows.len(),
{
    if rows.len() > 0 {
        lemma_kept_none(rows.drop_last());
        assert(rows.drop_last().push(rows.last()) =~= rows);
    }
}

/// With row `r` the only full row, clearing keeps the others in order.
proof fn lemma_kept_one(rows: Seq<Seq<bool>>, r: int)
    requires
        0 <= r < rows.len(),
        full(rows[r]),
        forall|i: int| 0 <= i < rows.len() && i != r ==> !full(#[trigger] rows[i]),
    ensures
        kept(rows) == rows.remove(r),
    decreases rows.len(),
{
    let d = rows.drop_last();
    if r == rows.len() - 1 {
        assert forall|i: int| 0 <= i < d.len() implies !full(#[trigger] d[i]) by {
            assert(d[i] == rows[i]);
        }
        lemma_kept_none(d);
        assert(d =~= rows.remove(r));
    } else {
        assert(d[r] == rows[r]);
        assert forall|i: int| 0 <= i < d.len() && i != r implies !full(#[trigger] d[i]) by {
            assert(d[i] == rows[i]);
        }
        lemma_kept_one(d, r);
        assert(!full(rows[rows.len() - 1]));
        assert(d.remove(r).push(rows.last()) =~= rows.remove(r));
    }
}

/// A row with every cell occupied counts one per cell.
proof fn lemma_row_full_count(row: Seq<bool>)
    requires
        full(row),
    ensures
        row_occupied(row) == row.len(),
    decreases row.len(),
{
    if row.len() > 0 {
        lemma_row_full_count(row.drop_last());
    }
}

/// A row with no occupied cell counts zero.
proof fn lemma_row_empty_count(row: Seq<bool>)
    requires
        forall|i: int| 0 <= i < row.len() ==> !row[i],
    ensures
        row_occupied(row) == 0,
    decreases row.len(),
{
    if row.len() > 0 {
        lemma_row_empty_count(row.drop_last());
    }
}

/// Removing row `r` removes its occupied cells from the count.
proof fn lemma_occupied_remove(rows: Seq<Seq<bool>>, r: int)
    requires
        0 <= r < rows.len(),
    ensures
        occupied(rows) == occupied(rows.remove(r)) + row_occupied(rows[r]),
    decreases rows.len(),
{
    let d = rows.drop_last();
    if r == rows.len() - 1 {
        assert(d =~= rows.remove(r));
    } else {
        lemma_occupied_remove(d, r);
        let m = rows.remove(r);
        assert(m.drop_last() =~= d.remove(r));
        assert(m.last() == rows.last());
    }
}

/// Clearing a board whose only full row is row `r` removes that one row,
/// shifts the rows above it down by one, adds an empty row at the top, and
/// takes `WIDTH` cells off the occupied count.
pub proof fn lemma_clear_single_full_row(rows: Seq<Seq<bool>>, r: int)
    requires
        board_shape(rows),
        0 <= r < rows.len(),
        full(rows[r]),
        forall|i: int| 0 <= i < rows.len() && i != r ==> !full(#[trigger] rows[i]),
    ensures
        full_count(rows) == 1,
        cleared(rows) == rows.remove(r).push(empty_row()),
        occupied(cleared(rows)) == occupied(rows) - WIDTH,
{
    lemma_kept_one(rows, r);
    let c = cleared(rows);
    assert(c =~= rows.remove(r).push(empty_row()));
    assert(c.drop_last() =~= rows.remove(r));
    lemma_row_empty_count(empty_row());
    lemma_occupied_remove(rows, r);
    assert(rows[r].len() == WIDTH);
    lemma_row_full_count(rows[r]);
}

} // verus!
