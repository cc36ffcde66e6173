//! Life without Death: Conway's births, and no cell ever dies.

use vstd::prelude::*;
use array2d::Array2D;
use crate::counting::{
    is_indicator_on, lemma_square_sum_linear, lemma_square_sum_zero,
    lemma_zero_total_zero_everywhere,
};
use crate::common::alive_neighbor_count;
use crate::generation::{
    birth_count, birth_indicator, can_simulate, count_cells, death_count, death_indicator,
    lemma_total_is_count_cells, next_rows, simulate_generation, square_of, state_count,
    state_indicator, Automaton,
};
use crate::grid::{covers_square, grid_rows};

verus! {

/// Computes the next Life-without-Death generation of the `grid_size` by
/// `grid_size` square at the origin of `grid`: a dead cell with exactly three
/// live neighbours comes to life, and every other cell keeps its state.
/// Returns the new grid with the numbers of births and deaths.
pub fn simulate_lwod_generation(grid: &Array2D<i32>, grid_size: usize) -> (res: (Array2D<i32>, i32, i32))
    requires
        can_simulate(Automaton::LifeWithoutDeath, grid_rows(*grid), grid_size as nat),
    ensures
        grid_rows(res.0) == next_rows(Automaton::LifeWithoutDeath, grid_rows(*grid), grid_size as nat),
        res.1 == birth_count(Automaton::LifeWithoutDeath, grid_rows(*grid), grid_size as nat),
        res.2 == death_count(Automaton::LifeWithoutDeath, grid_rows(*grid), grid_size as nat),
{
    let (next, births, deaths) = simulate_generation(grid, grid_size, Automaton::LifeWithoutDeath);
    (next, births as i32, deaths as i32)
}

/// Once a cell is alive it never dies: every cell that is not dead keeps its
/// state, and no generation counts a death.
pub proof fn lwod_cells_never_die(rows: Seq<Seq<i32>>, size: nat)
    requires
        covers_square(rows, size),
    ensures
        forall|r: int, c: int|
            0 <= r < size && 0 <= c < size && rows[r][c] != 0 ==> #[trigger] next_rows(
                Automaton::LifeWithoutDeath,
                rows,
                size,
            )[r][c] == rows[r][c],
        death_count(Automaton::LifeWithoutDeath, rows, size) == 0,
{
    lemma_square_sum_zero(death_indicator(Automaton::LifeWithoutDeath, rows), size, size);
}

/// The live cells of the next generation are those of this one plus the
/// births.
pub proof fn lwod_population_balance(rows: Seq<Seq<i32>>, size: nat)
    requires
        covers_square(rows, size),
    ensures
        state_count(next_rows(Automaton::LifeWithoutDeath, rows, size), 1, size) == state_count(
            rows,
            1,
            size,
        ) + birth_count(Automaton::LifeWithoutDeath, rows, size),
{
    let next = next_rows(Automaton::LifeWithoutDeath, rows, size);
    let deaths = death_indicator(Automaton::LifeWithoutDeath, rows);
    lemma_square_sum_zero(deaths, size, size);
    lemma_square_sum_linear(
        state_indicator(next, 1),
        state_indicator(rows, 1),
        birth_indicator(Automaton::LifeWithoutDeath, rows),
        deaths,
        size,
        size,
    );
}

/// A generation without births leaves the grid as it was.
pub proof fn lwod_stable_without_births(rows: Seq<Seq<i32>>, size: nat)
    requires
        covers_square(rows, size),
        birth_count(Automaton::LifeWithoutDeath, rows, size) == 0,
    ensures
        next_rows(Automaton::LifeWithoutDeath, rows, size) == square_of(rows, size),
{
    let births = birth_indicator(Automaton::LifeWithoutDeath, rows);
    assert(is_indicator_on(births, size));
    lemma_zero_total_zero_everywhere(births, size);
    assert forall|r: int, c: int| 0 <= r < size && 0 <= c < size implies
        #[trigger] next_rows(Automaton::LifeWithoutDeath, rows, size)[r][c] == rows[r][c] by {
        assert(births(r, c) == 0);
    }
    assert(next_rows(Automaton::LifeWithoutDeath, rows, size) =~~= square_of(rows, size));
}

/// The rule of Life without Death, cell by cell, with `k` the cell's number of
/// live neighbours: a dead cell with exactly three comes to life (1) and counts
/// as a birth; any other dead cell stays dead; every other cell keeps its
/// state. Births are exactly those cells, and there are no deaths.
pub proof fn lwod_rule(rows: Seq<Seq<i32>>, size: nat)
    requires
        covers_square(rows, size),
    ensures
        forall|r: int, c: int|
            0 <= r < size && 0 <= c < size ==> {
                let state = rows[r][c];
                let k = alive_neighbor_count(rows, r, c);
                let next = #[trigger] next_rows(Automaton::LifeWithoutDeath, rows, size)[r][c];
                let born = birth_indicator(Automaton::LifeWithoutDeath, rows)(r, c) == 1;
                let died = death_indicator(Automaton::LifeWithoutDeath, rows)(r, c) == 1;
                &&& state == 0 && k == 3 ==> next == 1 && born
                &&& state == 0 && k != 3 ==> next == 0 && !born
                &&& state != 0 ==> next == state && !born
                &&& !died
            },
        birth_count(Automaton::LifeWithoutDeath, rows, size) == count_cells(
            rows,
            size,
            |state: i32, k: int| state == 0 && k == 3,
        ),
        death_count(Automaton::LifeWithoutDeath, rows, size) == 0,
{
    lemma_total_is_count_cells(
        birth_indicator(Automaton::LifeWithoutDeath, rows),
        rows,
        size,
        |state: i32, k: int| state == 0 && k == 3,
    );
    lemma_square_sum_zero(death_indicator(Automaton::LifeWithoutDeath, rows), size, size);
}

} // verus!
