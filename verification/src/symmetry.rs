//! The rules look only at a cell's state and its number of live neighbours,
//! so a generation commutes with the symmetries of a square grid:
//! transposing it, or mirroring its columns or its rows, before the step
//! gives the same as doing so after, with the same births and deaths.

use vstd::prelude::*;
use crate::common::{alive_indicator, alive_neighbor_count, shifted};
use crate::counting::{lemma_square_sum_mirror_columns, lemma_square_sum_transpose};
use crate::generation::{
    birth_count, birth_indicator, death_count, death_indicator, next_rows, Automaton,
};
use crate::grid::cell_at;

verus! {

/// Whether `rows` is exactly a `size` by `size` grid.
pub open spec fn is_exact_square(rows: Seq<Seq<i32>>, size: nat) -> bool {
    &&& rows.len() == size
    &&& forall|r: int| 0 <= r < size ==> #[trigger] rows[r].len() == size
}

/// The grid with rows and columns swapped.
pub open spec fn transposed(rows: Seq<Seq<i32>>, size: nat) -> Seq<Seq<i32>> {
    Seq::new(size, |r: int| Seq::new(size, |c: int| rows[c][r]))
}

/// The grid with each row reversed (left and right swapped).
pub open spec fn mirrored_columns(rows: Seq<Seq<i32>>, size: nat) -> Seq<Seq<i32>> {
    Seq::new(size, |r: int| Seq::new(size, |c: int| rows[r][size - 1 - c]))
}

/// The grid with its rows in reverse order (top and bottom swapped).
pub open spec fn mirrored_rows(rows: Seq<Seq<i32>>, size: nat) -> Seq<Seq<i32>> {
    Seq::new(size, |r: int| Seq::new(size, |c: int| rows[size - 1 - r][c]))
}

proof fn lemma_neighbors_transposed(rows: Seq<Seq<i32>>, size: nat, row: int, col: int)
    requires
        is_exact_square(rows, size),
        0 <= row < size,
        0 <= col < size,
    ensures
        alive_neighbor_count(transposed(rows, size), row, col) == alive_neighbor_count(rows, col, row),
{
    let t = transposed(rows, size);
    assert forall|x: int, y: int| #[trigger] alive_indicator(t, x, y) == alive_indicator(rows, y, x) by {
        if 0 <= x < size && 0 <= y < size {
            assert(cell_at(t, x, y) == cell_at(rows, y, x));
        }
    }
}

proof fn lemma_mirrored_term(rows: Seq<Seq<i32>>, size: nat, x: int, col: int, delta: int)
    requires
        is_exact_square(rows, size),
        size <= usize::MAX,
        0 <= col < size,
        -1 <= delta <= 1,
    ensures
        alive_indicator(mirrored_columns(rows, size), x, shifted(col, delta)) == alive_indicator(
            rows,
            x,
            shifted(size - 1 - col, -delta),
        ),
{
    let m = mirrored_columns(rows, size);
    let y = shifted(col, delta);
    let y2 = shifted(size - 1 - col, -delta);
    if 0 <= y < size {
        assert(y2 == size - 1 - y);
        if 0 <= x < size {
            assert(cell_at(m, x, y) == cell_at(rows, x, y2));
        }
    } else {
        assert(!(0 <= y2 < size));
    }
}

proof fn lemma_neighbors_mirrored_columns(rows: Seq<Seq<i32>>, size: nat, row: int, col: int)
    requires
        is_exact_square(rows, size),
        size <= usize::MAX,
        0 <= row < size,
        0 <= col < size,
    ensures
        alive_neighbor_count(mirrored_columns(rows, size), row, col) == alive_neighbor_count(
            rows,
            row,
            size - 1 - col,
        ),
{
    let c2 = size - 1 - col;
    assert(shifted(col, 0) == col && shifted(c2, 0) == c2);
    lemma_mirrored_term(rows, size, shifted(row, -1), col, -1);
    lemma_mirrored_term(rows, size, shifted(row, -1), col, 0);
    lemma_mirrored_term(rows, size, shifted(row, -1), col, 1);
    lemma_mirrored_term(rows, size, row, col, -1);
    lemma_mirrored_term(rows, size, row, col, 1);
    lemma_mirrored_term(rows, size, shifted(row, 1), col, -1);
    lemma_mirrored_term(rows, size, shifted(row, 1), col, 0);
    lemma_mirrored_term(rows, size, shifted(row, 1), col, 1);
}

/// Transposing a square grid and then stepping it gives the transpose of the
/// stepped grid, with the same numbers of births and deaths.
pub proof fn generation_commutes_with_transpose(automaton: Automaton, rows: Seq<Seq<i32>>, size: nat)
    requires
        is_exact_square(rows, size),
    ensures
        next_rows(automaton, transposed(rows, size), size) == transposed(next_rows(automaton, rows, size), size),
        birth_count(automaton, transposed(rows, size), size) == birth_count(automaton, rows, size),
        death_count(automaton, transposed(rows, size), size) == death_count(automaton, rows, size),
{
    let t = transposed(rows, size);
    assert forall|r: int, c: int| 0 <= r < size && 0 <= c < size implies #[trigger] alive_neighbor_count(t, r, c)
        == alive_neighbor_count(rows, c, r) by {
        lemma_neighbors_transposed(rows, size, r, c);
    }
    assert(next_rows(automaton, t, size) =~~= transposed(next_rows(automaton, rows, size), size));
    lemma_square_sum_transpose(birth_indicator(automaton, rows), birth_indicator(automaton, t), size, size);
    lemma_square_sum_transpose(death_indicator(automaton, rows), death_indicator(automaton, t), size, size);
}

/// Mirroring a square grid left to right and then stepping it gives the
/// mirror of the stepped grid, with the same numbers of births and deaths.
pub proof fn generation_commutes_with_column_mirror(automaton: Automaton, rows: Seq<Seq<i32>>, size: nat)
    requires
        is_exact_square(rows, size),
        size <= usize::MAX,
    ensures
        next_rows(automaton, mirrored_columns(rows, size), size) == mirrored_columns(
            next_rows(automaton, rows, size),
            size,
        ),
        birth_count(automaton, mirrored_columns(rows, size), size) == birth_count(automaton, rows, size),
        death_count(automaton, mirrored_columns(rows, size), size) == death_count(automaton, rows, size),
{
    let m = mirrored_columns(rows, size);
    assert forall|r: int, c: int| 0 <= r < size && 0 <= c < size implies #[trigger] alive_neighbor_count(m, r, c)
        == alive_neighbor_count(rows, r, size - 1 - c) by {
        lemma_neighbors_mirrored_columns(rows, size, r, c);
    }
    assert(next_rows(automaton, m, size) =~~= mirrored_columns(next_rows(automaton, rows, size), size));
    lemma_square_sum_mirror_columns(birth_indicator(automaton, rows), birth_indicator(automaton, m), size, size);
    lemma_square_sum_mirror_columns(death_indicator(automaton, rows), death_indicator(automaton, m), size, size);
}

/// Mirroring a square grid top to bottom and then stepping it gives the
/// mirror of the stepped grid, with the same numbers of births and deaths.
pub proof fn generation_commutes_with_row_mirror(automaton: Automaton, rows: Seq<Seq<i32>>, size: nat)
    requires
        is_exact_square(rows, size),
        size <= usize::MAX,
    ensures
        next_rows(automaton, mirrored_rows(rows, size), size) == mirrored_rows(
            next_rows(automaton, rows, size),
            size,
        ),
        birth_count(automaton, mirrored_rows(rows, size), size) == birth_count(automaton, rows, size),
        death_count(automaton, mirrored_rows(rows, size), size) == death_count(automaton, rows, size),
{
    // A top-to-bottom mirror is a transpose, a left-to-right mirror and a
    // transpose again.
    let t = transposed(rows, size);
    let mt = mirrored_columns(t, size);
    let tmt = transposed(mt, size);
    assert(tmt =~~= mirrored_rows(rows, size));
    generation_commutes_with_transpose(automaton, rows, size);
    generation_commutes_with_column_mirror(automaton, t, size);
    generation_commutes_with_transpose(automaton, mt, size);
    let next = next_rows(automaton, rows, size);
    assert(transposed(mirrored_columns(transposed(next, size), size), size) =~~= mirrored_rows(next, size));
}

} // verus!
