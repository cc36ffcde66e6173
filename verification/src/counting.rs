//! Sums of a per-cell quantity over the square of cells at the origin of a
//! grid, taken row by row and, within a row, column by column: the order in
//! which a generation visits the cells.

use vstd::prelude::*;

verus! {

/// The sum of `f` over the first `cols` cells of row `row`.
pub open spec fn row_sum(f: spec_fn(int, int) -> int, row: int, cols: nat) -> int
    decreases cols,
{
    if cols == 0 {
        0
    } else {
        row_sum(f, row, (cols - 1) as nat) + f(row, cols - 1)
    }
}

/// The sum of `f` over the first `rows` rows of a square of side `size`.
pub open spec fn square_sum(f: spec_fn(int, int) -> int, size: nat, rows: nat) -> int
    decreases rows,
{
    if rows == 0 {
        0
    } else {
        square_sum(f, size, (rows - 1) as nat) + row_sum(f, rows - 1, size)
    }
}

/// The sum of `f` over the whole square of side `size`.
pub open spec fn square_total(f: spec_fn(int, int) -> int, size: nat) -> int {
    square_sum(f, size, size)
}

/// Whether `f` takes only the values 0 and 1 on the square of side `size`.
pub open spec fn is_indicator_on(f: spec_fn(int, int) -> int, size: nat) -> bool {
    forall|r: int, c: int| 0 <= r < size && 0 <= c < size ==> 0 <= #[trigger] f(r, c) <= 1
}

pub proof fn lemma_row_sum_bounds(f: spec_fn(int, int) -> int, size: nat, row: int, cols: nat, more: nat)
    requires
        is_indicator_on(f, size),
        0 <= row < size,
        cols <= more <= size,
    ensures
        0 <= row_sum(f, row, cols) <= row_sum(f, row, more),
        row_sum(f, row, cols) <= cols,
    decreases more,
{
    if more > cols {
        assert(0 <= f(row, more - 1) <= 1);
        lemma_row_sum_bounds(f, size, row, cols, (more - 1) as nat);
    } else if cols > 0 {
        assert(0 <= f(row, cols - 1) <= 1);
        lemma_row_sum_bounds(f, size, row, (cols - 1) as nat, (cols - 1) as nat);
    }
}

pub proof fn lemma_square_sum_monotone(f: spec_fn(int, int) -> int, size: nat, rows: nat, more: nat)
    requires
        is_indicator_on(f, size),
        rows <= more <= size,
    ensures
        0 <= square_sum(f, size, rows) <= square_sum(f, size, more),
    decreases more,
{
    if more > rows {
        lemma_row_sum_bounds(f, size, more - 1, size, size);
        lemma_square_sum_monotone(f, size, rows, (more - 1) as nat);
    } else if rows > 0 {
        lemma_row_sum_bounds(f, size, rows - 1, size, size);
        lemma_square_sum_monotone(f, size, (rows - 1) as nat, (rows - 1) as nat);
    }
}

/// A partial sum taken in visiting order never exceeds the total.
pub proof fn lemma_partial_sum_within_total(f: spec_fn(int, int) -> int, size: nat, row: nat, col: nat)
    requires
        is_indicator_on(f, size),
        row < size,
        col <= size,
    ensures
        0 <= square_sum(f, size, row) + row_sum(f, row as int, col) <= square_total(f, size),
{
    lemma_row_sum_bounds(f, size, row as int, col, size);
    lemma_square_sum_monotone(f, size, row, row);
    lemma_square_sum_monotone(f, size, (row + 1) as nat, size);
}

pub proof fn lemma_row_sum_linear(
    f: spec_fn(int, int) -> int,
    g: spec_fn(int, int) -> int,
    h: spec_fn(int, int) -> int,
    k: spec_fn(int, int) -> int,
    row: int,
    cols: nat,
)
    requires
        forall|c: int| 0 <= c < cols ==> #[trigger] f(row, c) == g(row, c) + h(row, c) - k(row, c),
    ensures
        row_sum(f, row, cols) == row_sum(g, row, cols) + row_sum(h, row, cols) - row_sum(k, row, cols),
    decreases cols,
{
    if cols > 0 {
        assert(f(row, cols - 1) == g(row, cols - 1) + h(row, cols - 1) - k(row, cols - 1));
        lemma_row_sum_linear(f, g, h, k, row, (cols - 1) as nat);
    }
}

/// Where `f` is cell by cell `g + h - k` on the square, so are the sums.
pub proof fn lemma_square_sum_linear(
    f: spec_fn(int, int) -> int,
    g: spec_fn(int, int) -> int,
    h: spec_fn(int, int) -> int,
    k: spec_fn(int, int) -> int,
    size: nat,
    rows: nat,
)
    requires
        rows <= size,
        forall|r: int, c: int|
            0 <= r < size && 0 <= c < size ==> #[trigger] f(r, c) == g(r, c) + h(r, c) - k(r, c),
    ensures
        square_sum(f, size, rows) == square_sum(g, size, rows) + square_sum(h, size, rows)
            - square_sum(k, size, rows),
    decreases rows,
{
    if rows > 0 {
        assert forall|c: int| 0 <= c < size implies #[trigger] f(rows - 1, c) == g(rows - 1, c) + h(
            rows - 1,
            c,
        ) - k(rows - 1, c) by {}
        lemma_row_sum_linear(f, g, h, k, rows - 1, size);
        lemma_square_sum_linear(f, g, h, k, size, (rows - 1) as nat);
    }
}

/// A quantity that is zero on every cell of the square sums to zero.
pub proof fn lemma_square_sum_zero(f: spec_fn(int, int) -> int, size: nat, rows: nat)
    requires
        rows <= size,
        forall|r: int, c: int| 0 <= r < size && 0 <= c < size ==> #[trigger] f(r, c) == 0,
    ensures
        square_sum(f, size, rows) == 0,
    decreases rows,
{
    if rows > 0 {
        lemma_row_sum_zero(f, size, rows - 1, size);
        lemma_square_sum_zero(f, size, (rows - 1) as nat);
    }
}

proof fn lemma_row_sum_zero(f: spec_fn(int, int) -> int, size: nat, row: int, cols: nat)
    requires
        0 <= row < size,
        cols <= size,
        forall|r: int, c: int| 0 <= r < size && 0 <= c < size ==> #[trigger] f(r, c) == 0,
    ensures
        row_sum(f, row, cols) == 0,
    decreases cols,
{
    if cols > 0 {
        assert(f(row, cols - 1) == 0);
        lemma_row_sum_zero(f, size, row, (cols - 1) as nat);
    }
}

/// Where a 0/1 quantity sums to zero over the square, it is zero on every
/// cell of the square.
pub proof fn lemma_zero_total_zero_everywhere(f: spec_fn(int, int) -> int, size: nat)
    requires
        is_indicator_on(f, size),
        square_total(f, size) == 0,
    ensures
        forall|r: int, c: int| 0 <= r < size && 0 <= c < size ==> #[trigger] f(r, c) == 0,
{
    assert forall|r: int, c: int| 0 <= r < size && 0 <= c < size implies #[trigger] f(r, c) == 0 by {
        lemma_partial_sum_within_total(f, size, r as nat, (c + 1) as nat);
        lemma_row_sum_bounds(f, size, r, c as nat, c as nat);
        lemma_square_sum_monotone(f, size, r as nat, r as nat);
        assert(row_sum(f, r, (c + 1) as nat) == row_sum(f, r, c as nat) + f(r, c));
    }
}

/// A 0/1 quantity sums to at most the number of cells it is summed over.
pub proof fn lemma_square_sum_at_most_cells(f: spec_fn(int, int) -> int, size: nat, rows: nat)
    requires
        is_indicator_on(f, size),
        rows <= size,
    ensures
        0 <= square_sum(f, size, rows) <= rows * size,
    decreases rows,
{
    if rows > 0 {
        lemma_row_sum_bounds(f, size, rows - 1, size, size);
        lemma_square_sum_at_most_cells(f, size, (rows - 1) as nat);
        assert((rows - 1) * size + size == rows * size) by (nonlinear_arith);
    }
}

/// The sum of `f` over column `col` of the first `rows` rows.
pub open spec fn column_sum(f: spec_fn(int, int) -> int, col: int, rows: nat) -> int
    decreases rows,
{
    if rows == 0 {
        0
    } else {
        column_sum(f, col, (rows - 1) as nat) + f(rows - 1, col)
    }
}

proof fn lemma_square_sum_add_column(f: spec_fn(int, int) -> int, width: nat, rows: nat)
    ensures
        square_sum(f, width + 1, rows) == square_sum(f, width, rows) + column_sum(f, width as int, rows),
    decreases rows,
{
    if rows > 0 {
        lemma_square_sum_add_column(f, width, (rows - 1) as nat);
    }
}

proof fn lemma_column_sum_is_row_sum(f: spec_fn(int, int) -> int, g: spec_fn(int, int) -> int, line: int, len: nat)
    requires
        forall|i: int| 0 <= i < len ==> #[trigger] g(i, line) == f(line, i),
    ensures
        column_sum(g, line, len) == row_sum(f, line, len),
    decreases len,
{
    if len > 0 {
        assert(g(len - 1, line) == f(line, len - 1));
        lemma_column_sum_is_row_sum(f, g, line, (len - 1) as nat);
    }
}

proof fn lemma_square_sum_no_columns(f: spec_fn(int, int) -> int, rows: nat)
    ensures
        square_sum(f, 0, rows) == 0,
    decreases rows,
{
    if rows > 0 {
        lemma_square_sum_no_columns(f, (rows - 1) as nat);
    }
}

/// Summing a quantity row by row or summing its transpose row by row gives
/// the same total: the sum of `f` over `height` rows of `width` cells is the
/// sum of `g` over `width` rows of `height` cells where `g(c, r) == f(r, c)`.
pub proof fn lemma_square_sum_transpose(f: spec_fn(int, int) -> int, g: spec_fn(int, int) -> int, width: nat, height: nat)
    requires
        forall|r: int, c: int| 0 <= r < height && 0 <= c < width ==> #[trigger] g(c, r) == f(r, c),
    ensures
        square_sum(f, width, height) == square_sum(g, height, width),
    decreases height,
{
    if height == 0 {
        lemma_square_sum_no_columns(g, width);
    } else {
        lemma_square_sum_transpose(f, g, width, (height - 1) as nat);
        lemma_square_sum_add_column(g, (height - 1) as nat, width);
        assert forall|i: int| 0 <= i < width implies #[trigger] g(i, height - 1) == f(height - 1, i) by {}
        lemma_column_sum_is_row_sum(f, g, height - 1, width);
    }
}

proof fn lemma_row_sum_peel_first(h: spec_fn(int, int) -> int, h2: spec_fn(int, int) -> int, row: int, len: nat)
    requires
        forall|c: int| 0 <= c < len ==> #[trigger] h2(row, c) == h(row, c + 1),
    ensures
        row_sum(h, row, len + 1) == h(row, 0) + row_sum(h2, row, len),
    decreases len,
{
    assert(row_sum(h, row, len + 1) == row_sum(h, row, len) + h(row, len as int));
    if len > 0 {
        assert(h2(row, len - 1) == h(row, len as int));
        lemma_row_sum_peel_first(h, h2, row, (len - 1) as nat);
        assert(row_sum(h2, row, len) == row_sum(h2, row, (len - 1) as nat) + h2(row, len - 1));
    } else {
        assert(row_sum(h, row, 0) == 0);
    }
}

/// Summing a row from either end gives the same total.
pub proof fn lemma_row_sum_reverse(f: spec_fn(int, int) -> int, g: spec_fn(int, int) -> int, row: int, len: nat)
    requires
        forall|c: int| 0 <= c < len ==> #[trigger] g(row, c) == f(row, len - 1 - c),
    ensures
        row_sum(g, row, len) == row_sum(f, row, len),
    decreases len,
{
    if len > 0 {
        let g2 = |r: int, c: int| g(r, c + 1);
        assert forall|c: int| 0 <= c < len - 1 implies #[trigger] g2(row, c) == f(row, (len - 1) - 1 - c) by {
            assert(g(row, c + 1) == f(row, len - 1 - (c + 1)));
        }
        lemma_row_sum_reverse(f, g2, row, (len - 1) as nat);
        assert forall|c: int| 0 <= c < len - 1 implies #[trigger] g2(row, c) == g(row, c + 1) by {}
        lemma_row_sum_peel_first(g, g2, row, (len - 1) as nat);
        assert(g(row, 0) == f(row, len - 1));
    }
}

/// Mirroring every row of the square (column `c` to `width - 1 - c`) keeps
/// the sum.
pub proof fn lemma_square_sum_mirror_columns(f: spec_fn(int, int) -> int, g: spec_fn(int, int) -> int, width: nat, rows: nat)
    requires
        forall|r: int, c: int| 0 <= r < rows && 0 <= c < width ==> #[trigger] g(r, c) == f(r, width - 1 - c),
    ensures
        square_sum(g, width, rows) == square_sum(f, width, rows),
    decreases rows,
{
    if rows > 0 {
        assert forall|c: int| 0 <= c < width implies #[trigger] g(rows - 1, c) == f(rows - 1, width - 1 - c) by {}
        lemma_row_sum_reverse(f, g, rows - 1, width);
        lemma_square_sum_mirror_columns(f, g, width, (rows - 1) as nat);
    }
}

} // verus!
