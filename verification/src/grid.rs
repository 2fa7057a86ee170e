//! How the inventory window lays item slots out in columns.

use vstd::prelude::*;

verus! {

/// The rows of the grid when `fitting` slots fit in the window's height: one
/// less, so that the last row keeps a margin, and never fewer than one.
pub open spec fn rows_for(fitting: int) -> int {
    if fitting > 1 {
        fitting - 1
    } else {
        1
    }
}

/// The columns needed for `count` slots in columns of `rows`; at least one.
pub open spec fn columns_for(count: int, rows: int) -> int {
    if count == 0 {
        1
    } else {
        (count + rows - 1) / rows
    }
}

/// The first slot of column `column`.
pub open spec fn span_start(count: int, rows: int, column: int) -> int {
    if column * rows < count {
        column * rows
    } else {
        count
    }
}

/// One past the last slot of column `column`.
pub open spec fn span_end(count: int, rows: int, column: int) -> int {
    if column * rows + rows < count {
        column * rows + rows
    } else {
        count
    }
}

/// The rows of the grid when `fitting` slots fit in the window's height.
pub fn grid_rows(fitting: usize) -> (r: usize)
    ensures
        r == rows_for(fitting as int),
        r >= 1,
        fitting >= 2 ==> r == fitting - 1,
        fitting <= 1 ==> r == 1,
{
    let rows = fitting.saturating_sub(1);
    if rows < 1 {
        1
    } else {
        rows
    }
}

/// The columns needed for `count` slots in columns of `rows`.
pub fn grid_columns(count: usize, rows: usize) -> (r: usize)
    requires
        rows >= 1,
    ensures
        r == columns_for(count as int, rows as int),
        r >= 1,
{
    let q = count / rows;
    let rem = count % rows;
    proof {
        assert(count == q * rows + rem && 0 <= rem < rows) by (nonlinear_arith)
            requires
                q == count / rows,
                rem == count % rows,
                rows >= 1,
        ;
        if rem != 0 {
            assert(q < count) by (nonlinear_arith)
                requires
                    count == q * rows + rem,
                    rem > 0,
                    rows >= 2,
            ;
        }
    }
    let c = if rem != 0 {
        q + 1
    } else {
        q
    };
    proof {
        if count > 0 {
            let ci = c as int;
            let ni = count as int;
            let ri = rows as int;
            assert((ni + ri - 1) / ri == ci && ci >= 1) by (nonlinear_arith)
                requires
                    ni >= 1,
                    ni == q * ri + rem,
                    0 <= rem < ri,
                    rem != 0 ==> ci == q + 1,
                    rem == 0 ==> ci == q,
                    ri >= 1,
            ;
        }
    }
    if c < 1 {
        1
    } else {
        c
    }
}

/// The slots `start..end` shown in column `column`.
pub fn column_span(count: usize, rows: usize, column: usize) -> (r: (usize, usize))
    requires
        rows >= 1,
    ensures
        r.0 == span_start(count as int, rows as int, column as int),
        r.1 == span_end(count as int, rows as int, column as int),
{
    let last = count / rows;
    proof {
        assert(last * rows <= count) by (nonlinear_arith)
            requires
                last == count / rows,
                rows >= 1,
        ;
        assert(count < last * rows + rows) by (nonlinear_arith)
            requires
                last == count / rows,
                rows >= 1,
        ;
    }
    if column > last {
        proof {
            assert(column * rows >= last * rows + rows) by (nonlinear_arith)
                requires
                    column >= last + 1,
                    rows >= 1,
            ;
        }
        (count, count)
    } else {
        proof {
            assert(column * rows <= last * rows) by (nonlinear_arith)
                requires
                    column <= last,
                    rows >= 1,
            ;
        }
        let start = column * rows;
        let left = count - start;
        let end = if rows < left {
            start + rows
        } else {
            count
        };
        (start, end)
    }
}

/// The columns of the grid hold every slot once, in order: column 0 starts at
/// the first slot, each column starts where the one before it ends, the last
/// column ends at the last slot, and no column but that of an empty grid is
/// empty.
pub proof fn lemma_columns_cover_slots(count: int, rows: int)
    requires
        count >= 0,
        rows >= 1,
    ensures
        span_start(count, rows, 0) == 0,
        forall|c: int|
            0 <= c < columns_for(count, rows) - 1 ==> #[trigger] span_end(count, rows, c) == span_start(
                count,
                rows,
                c + 1,
            ),
        span_end(count, rows, columns_for(count, rows) - 1) == count,
        count > 0 ==> forall|c: int|
            0 <= c < columns_for(count, rows) ==> #[trigger] span_start(count, rows, c) < span_end(
                count,
                rows,
                c,
            ),
{
    let cols = columns_for(count, rows);
    assert forall|c: int| 0 <= c < cols - 1 implies #[trigger] span_end(count, rows, c) == span_start(count, rows, c + 1) by {
        assert((c + 1) * rows == c * rows + rows) by (nonlinear_arith);
    }
    if count > 0 {
        assert((cols - 1) * rows < count && count <= cols * rows) by (nonlinear_arith)
            requires
                cols == (count + rows - 1) / rows,
                count > 0,
                rows >= 1,
        ;
        assert(span_end(count, rows, cols - 1) == count) by {
            assert((cols - 1) * rows + rows == cols * rows) by (nonlinear_arith);
        }
        assert forall|c: int| 0 <= c < cols implies #[trigger] span_start(count, rows, c) < span_end(count, rows, c) by {
            assert(c * rows <= (cols - 1) * rows) by (nonlinear_arith)
                requires
                    c <= cols - 1,
                    rows >= 1,
            ;
        }
    }
}

/// The grid has one row fewer than the slots that fit in the window's height,
/// so that a margin stays below the last row, and at least one row, however
/// tall or short the window is.
pub proof fn lemma_rows_keep_a_margin(fitting: int)
    ensures
        rows_for(fitting) >= 1,
        fitting >= 2 ==> rows_for(fitting) + 1 == fitting,
        fitting <= 1 ==> rows_for(fitting) == 1,
{
}

} // verus!
