//! Seeds: a dead cell with exactly two live neighbours is born, and every
//! live cell dies.

use vstd::prelude::*;
use array2d::Array2D;
use crate::counting::{
    is_indicator_on, lemma_square_sum_linear, lemma_square_sum_zero,
    lemma_zero_total_zero_everywhere,
};
use crate::common::alive_neighbor_count;
use crate::generation::{
    birth_count, birth_indicator, can_simulate, count_cells, death_count, death_indicator,
    lemma_total_is_count_cells, next_rows, simulate_generation, square_of, state_count,
    state_indicator, Automaton,
};
use crate::grid::{covers_square, grid_rows};

verus! {

/// Computes the next Seeds generation of the `grid_size` by `grid_size`
/// square at the origin of `grid`: a dead cell with exactly two live
/// neighbours comes to life, and every other cell is dead next. Returns the
/// new grid with the numbers of births and of live cells that died.
pub fn simulate_seeds_generation(grid: &Array2D<i32>, grid_size: usize) -> (res: (Array2D<i32>, i32, i32))
    requires
        can_simulate(Automaton::Seeds, grid_rows(*grid), grid_size as nat),
    ensures
        grid_rows(res.0) == next_rows(Automaton::Seeds, grid_rows(*grid), grid_size as nat),
        res.1 == birth_count(Automaton::Seeds, grid_rows(*grid), grid_size as nat),
        res.2 == death_count(Automaton::Seeds, grid_rows(*grid), grid_size as nat),
{
    let (next, births, deaths) = simulate_generation(grid, grid_size, Automaton::Seeds);
    (next, births as i32, deaths as i32)
}

/// Every cell of the next generation is dead or alive, and every cell that
/// is alive now is dead next.
pub proof fn seeds_live_cells_die(rows: Seq<Seq<i32>>, size: nat)
    requires
        covers_square(rows, size),
    ensures
        forall|r: int, c: int|
            0 <= r < size && 0 <= c < size ==> {
                let next = #[trigger] next_rows(Automaton::Seeds, rows, size)[r][c];
                &&& next == 0 || next == 1
                &&& rows[r][c] == 1 ==> next == 0
            },
{
}

/// The live cells of the next generation are the births, and the deaths are
/// the live cells of this one.
pub proof fn seeds_population_balance(rows: Seq<Seq<i32>>, size: nat)
    requires
        covers_square(rows, size),
    ensures
        state_count(next_rows(Automaton::Seeds, rows, size), 1, size) == birth_count(
            Automaton::Seeds,
            rows,
            size,
        ),
        death_count(Automaton::Seeds, rows, size) == state_count(rows, 1, size),
{
    let next = next_rows(Automaton::Seeds, rows, size);
    let births = birth_indicator(Automaton::Seeds, rows);
    let deaths = death_indicator(Automaton::Seeds, rows);
    let none = |r: int, c: int| 0int;
    lemma_square_sum_zero(none, size, size);
    lemma_square_sum_linear(state_indicator(next, 1), births, none, none, size, size);
    lemma_square_sum_linear(deaths, state_indicator(rows, 1), none, none, size, size);
}

/// On a grid of dead and live cells, a generation without births or deaths
/// leaves the grid as it was.
pub proof fn seeds_stable_without_births_or_deaths(rows: Seq<Seq<i32>>, size: nat)
    requires
        covers_square(rows, size),
        forall|r: int, c: int|
            0 <= r < size && 0 <= c < size ==> #[trigger] rows[r][c] == 0 || rows[r][c] == 1,
        birth_count(Automaton::Seeds, rows, size) == 0,
        death_count(Automaton::Seeds, rows, size) == 0,
    ensures
        next_rows(Automaton::Seeds, rows, size) == square_of(rows, size),
{
    let births = birth_indicator(Automaton::Seeds, rows);
    let deaths = death_indicator(Automaton::Seeds, rows);
    assert(is_indicator_on(births, size));
    assert(is_indicator_on(deaths, size));
    lemma_zero_total_zero_everywhere(births, size);
    lemma_zero_total_zero_everywhere(deaths, size);
    assert forall|r: int, c: int| 0 <= r < size && 0 <= c < size implies
        #[trigger] next_rows(Automaton::Seeds, rows, size)[r][c] == rows[r][c] by {
        assert(births(r, c) == 0);
        assert(deaths(r, c) == 0);
        assert(rows[r][c] == 0 || rows[r][c] == 1);
    }
    assert(next_rows(Automaton::Seeds, rows, size) =~~= square_of(rows, size));
}

/// The rule of Seeds, cell by cell, with `k` the cell's number of live
/// neighbours: a dead cell with exactly two comes to life (1) and counts as a
/// birth; every other cell is dead (0) next, and a live one counts as a death.
/// Births and deaths are exactly those cells.
pub proof fn seeds_rule(rows: Seq<Seq<i32>>, size: nat)
    requires
        covers_square(rows, size),
    ensures
        forall|r: int, c: int|
            0 <= r < size && 0 <= c < size ==> {
                let state = rows[r][c];
                let k = alive_neighbor_count(rows, r, c);
                let next = #[trigger] next_rows(Automaton::Seeds, rows, size)[r][c];
                let born = birth_indicator(Automaton::Seeds, rows)(r, c) == 1;
                let died = death_indicator(Automaton::Seeds, rows)(r, c) == 1;
                &&& state == 0 && k == 2 ==> next == 1 && born && !died
                &&& state == 0 && k != 2 ==> next == 0 && !born && !died
                &&& state == 1 ==> next == 0 && died && !born
                &&& state != 0 && state != 1 ==> next == 0 && !born && !died
            },
        birth_count(Automaton::Seeds, rows, size) == count_cells(
            rows,
            size,
            |state: i32, k: int| state == 0 && k == 2,
        ),
        death_count(Automaton::Seeds, rows, size) == count_cells(
            rows,
            size,
            |state: i32, k: int| state == 1,
        ),
{
    lemma_total_is_count_cells(
        birth_indicator(Automaton::Seeds, rows),
        rows,
        size,
        |state: i32, k: int| state == 0 && k == 2,
    );
    lemma_total_is_count_cells(
        death_indicator(Automaton::Seeds, rows),
        rows,
        size,
        |state: i32, k: int| state == 1,
    );
}

} // verus!
