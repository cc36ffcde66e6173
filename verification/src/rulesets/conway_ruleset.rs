//! Conway's Game of Life.

use vstd::prelude::*;
use array2d::Array2D;
use crate::counting::{
    is_indicator_on, lemma_square_sum_linear, lemma_zero_total_zero_everywhere,
};
use crate::common::alive_neighbor_count;
use crate::generation::{
    birth_count, birth_indicator, can_simulate, count_cells, death_count, death_indicator,
    lemma_total_is_count_cells, next_rows, simulate_generation, square_of, state_count,
    state_indicator, Automaton,
};
use crate::grid::{covers_square, grid_rows};

verus! {

/// Computes the next Conway generation of the `grid_size` by `grid_size`
/// square at the origin of `grid`: a live cell with fewer than two or more
/// than three live neighbours dies, a dead cell with exactly three comes to
/// life, and every other cell keeps its state. Returns the new grid with the
/// numbers of births and deaths.
pub fn simulate_conway_generation(grid: &Array2D<i32>, grid_size: usize) -> (res: (Array2D<i32>, i32, i32))
    requires
        can_simulate(Automaton::Conway, grid_rows(*grid), grid_size as nat),
    ensures
        grid_rows(res.0) == next_rows(Automaton::Conway, grid_rows(*grid), grid_size as nat),
        res.1 == birth_count(Automaton::Conway, grid_rows(*grid), grid_size as nat),
        res.2 == death_count(Automaton::Conway, grid_rows(*grid), grid_size as nat),
{
    let (next, births, deaths) = simulate_generation(grid, grid_size, Automaton::Conway);
    (next, births as i32, deaths as i32)
}

/// A grid of dead and live cells stays one: every cell of the next
/// generation is 0 or 1.
pub proof fn conway_keeps_grids_binary(rows: Seq<Seq<i32>>, size: nat)
    requires
        covers_square(rows, size),
        forall|r: int, c: int|
            0 <= r < size && 0 <= c < size ==> #[trigger] rows[r][c] == 0 || rows[r][c] == 1,
    ensures
        forall|r: int, c: int|
            0 <= r < size && 0 <= c < size ==> {
                let next = #[trigger] next_rows(Automaton::Conway, rows, size)[r][c];
                next == 0 || next == 1
            },
{
    assert forall|r: int, c: int| 0 <= r < size && 0 <= c < size implies {
        let next = #[trigger] next_rows(Automaton::Conway, rows, size)[r][c];
        next == 0 || next == 1
    } by {
        assert(rows[r][c] == 0 || rows[r][c] == 1);
    }
}

/// The live cells of the next generation are those of this one, plus the
/// births, minus the deaths.
pub proof fn conway_population_balance(rows: Seq<Seq<i32>>, size: nat)
    requires
        covers_square(rows, size),
    ensures
        state_count(next_rows(Automaton::Conway, rows, size), 1, size) == state_count(rows, 1, size)
            + birth_count(Automaton::Conway, rows, size) - death_count(Automaton::Conway, rows, size),
{
    let next = next_rows(Automaton::Conway, rows, size);
    lemma_square_sum_linear(
        state_indicator(next, 1),
        state_indicator(rows, 1),
        birth_indicator(Automaton::Conway, rows),
        death_indicator(Automaton::Conway, rows),
        size,
        size,
    );
}

/// A generation without births or deaths leaves the grid as it was: the
/// simulation has stabilized.
pub proof fn conway_stable_without_births_or_deaths(rows: Seq<Seq<i32>>, size: nat)
    requires
        covers_square(rows, size),
        birth_count(Automaton::Conway, rows, size) == 0,
        death_count(Automaton::Conway, rows, size) == 0,
    ensures
        next_rows(Automaton::Conway, rows, size) == square_of(rows, size),
{
    let births = birth_indicator(Automaton::Conway, rows);
    let deaths = death_indicator(Automaton::Conway, rows);
    assert(is_indicator_on(births, size));
    assert(is_indicator_on(deaths, size));
    lemma_zero_total_zero_everywhere(births, size);
    lemma_zero_total_zero_everywhere(deaths, size);
    assert forall|r: int, c: int| 0 <= r < size && 0 <= c < size implies
        #[trigger] next_rows(Automaton::Conway, rows, size)[r][c] == rows[r][c] by {
        assert(births(r, c) == 0);
        assert(deaths(r, c) == 0);
    }
    assert(next_rows(Automaton::Conway, rows, size) =~~= square_of(rows, size));
}

/// Conway's rule, cell by cell, with `k` the cell's number of live
/// neighbours: a live cell with fewer than two or more than three dies (0) and
/// counts as a death; a live cell with two or three stays alive; a dead cell
/// with exactly three comes to life (1) and counts as a birth; any other dead
/// cell stays dead; a cell in any other state keeps it. Neither count holds
/// anything else.
pub proof fn conway_rule(rows: Seq<Seq<i32>>, size: nat)
    requires
        covers_square(rows, size),
    ensures
        forall|r: int, c: int|
            0 <= r < size && 0 <= c < size ==> {
                let state = rows[r][c];
                let k = alive_neighbor_count(rows, r, c);
                let next = #[trigger] next_rows(Automaton::Conway, rows, size)[r][c];
                let born = birth_indicator(Automaton::Conway, rows)(r, c) == 1;
                let died = death_indicator(Automaton::Conway, rows)(r, c) == 1;
                &&& state == 1 && (k < 2 || k > 3) ==> next == 0 && died && !born
                &&& state == 1 && 2 <= k <= 3 ==> next == 1 && !died && !born
                &&& state == 0 && k == 3 ==> next == 1 && born && !died
                &&& state == 0 && k != 3 ==> next == 0 && !born && !died
                &&& state != 0 && state != 1 ==> next == state && !born && !died
            },
        birth_count(Automaton::Conway, rows, size) == count_cells(
            rows,
            size,
            |state: i32, k: int| state == 0 && k == 3,
        ),
        death_count(Automaton::Conway, rows, size) == count_cells(
            rows,
            size,
            |state: i32, k: int| state == 1 && (k < 2 || k > 3),
        ),
{
    lemma_total_is_count_cells(
        birth_indicator(Automaton::Conway, rows),
        rows,
        size,
        |state: i32, k: int| state == 0 && k == 3,
    );
    lemma_total_is_count_cells(
        death_indicator(Automaton::Conway, rows),
        rows,
        size,
        |state: i32, k: int| state == 1 && (k < 2 || k > 3),
    );
}

} // verus!
