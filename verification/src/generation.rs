//! One generation of an automaton: every cell of the square at the origin
//! of a grid takes its next state from its own state and its number of live
//! neighbours, and the births and deaths of the step are counted.

use vstd::prelude::*;
use array2d::Array2D;
use crate::common::{alive_neighbor_count, check_alive_neighbors};
use crate::counting::{
    is_indicator_on, lemma_partial_sum_within_total, lemma_square_sum_at_most_cells,
    lemma_square_sum_linear, row_sum,
    square_sum, square_total,
};
use crate::grid::{
    allocatable, covers_square, grid_filled_with, grid_get, grid_num_columns, grid_num_rows,
    grid_rows, grid_set,
};

verus! {

/// The rulesets whose generations the library computes.
#[derive(Clone, Copy, Debug)]
pub enum Automaton {
    /// Conway's Game of Life: states 0 (dead) and 1 (alive).
    Conway,
    /// Life without Death: Conway's births, and no cell ever dies.
    LifeWithoutDeath,
    /// Seeds: a dead cell with two live neighbours is born, every live cell dies.
    Seeds,
    /// Brian's Brain: 0 empty, 1 alive, 2 dying, 3 dead (marked for display).
    BriansBrain,
}

/// The state that a cell in `state` with `alive` live neighbours takes in the
/// next generation.
pub open spec fn next_state(automaton: Automaton, state: i32, alive: int) -> i32 {
    match automaton {
        Automaton::Conway => {
            if state == 1 && (alive < 2 || alive > 3) {
                0
            } else if state == 0 && alive == 3 {
                1
            } else {
                state
            }
        },
        Automaton::LifeWithoutDeath => {
            if state == 0 && alive == 3 {
                1
            } else {
                state
            }
        },
        Automaton::Seeds => {
            if state == 0 && alive == 2 {
                1
            } else {
                0
            }
        },
        Automaton::BriansBrain => {
            if state == 0 {
                if alive == 2 {
                    1
                } else {
                    0
                }
            } else if state == 1 {
                2
            } else if state == 2 {
                3
            } else if state == 3 {
                if alive == 2 {
                    1
                } else {
                    3
                }
            } else {
                0
            }
        },
    }
}

/// Whether the step of such a cell counts as a birth: a dead (for Brian's
/// Brain, empty or dead) cell that comes to life.
pub open spec fn is_birth(automaton: Automaton, state: i32, alive: int) -> bool {
    match automaton {
        Automaton::Conway => state == 0 && alive == 3,
        Automaton::LifeWithoutDeath => state == 0 && alive == 3,
        Automaton::Seeds => state == 0 && alive == 2,
        Automaton::BriansBrain => (state == 0 || state == 3) && alive == 2,
    }
}

/// Whether the step of such a cell counts as a death: for Conway a live cell
/// that is isolated or overcrowded, for Seeds every live cell, for Brian's
/// Brain a dying cell that becomes dead; Life without Death has none.
pub open spec fn is_death(automaton: Automaton, state: i32, alive: int) -> bool {
    match automaton {
        Automaton::Conway => state == 1 && (alive < 2 || alive > 3),
        Automaton::LifeWithoutDeath => false,
        Automaton::Seeds => state == 1,
        Automaton::BriansBrain => state == 2,
    }
}

/// The next state of the cell at (`row`, `col`) of `rows`.
pub open spec fn next_cell_state(automaton: Automaton, rows: Seq<Seq<i32>>, row: int, col: int) -> i32 {
    next_state(automaton, rows[row][col], alive_neighbor_count(rows, row, col))
}

/// The next generation of the `size` by `size` square at the origin of
/// `rows`, as a grid of that size.
pub open spec fn next_rows(automaton: Automaton, rows: Seq<Seq<i32>>, size: nat) -> Seq<Seq<i32>> {
    Seq::new(size, |r: int| Seq::new(size, |c: int| next_cell_state(automaton, rows, r, c)))
}

/// 1 on the cells whose step is a birth, 0 elsewhere.
pub open spec fn birth_indicator(automaton: Automaton, rows: Seq<Seq<i32>>) -> spec_fn(int, int) -> int {
    |r: int, c: int|
        if is_birth(automaton, rows[r][c], alive_neighbor_count(rows, r, c)) {
            1int
        } else {
            0int
        }
}

/// 1 on the cells whose step is a death, 0 elsewhere.
pub open spec fn death_indicator(automaton: Automaton, rows: Seq<Seq<i32>>) -> spec_fn(int, int) -> int {
    |r: int, c: int|
        if is_death(automaton, rows[r][c], alive_neighbor_count(rows, r, c)) {
            1int
        } else {
            0int
        }
}

/// The number of births in the next generation of the square of side `size`.
pub open spec fn birth_count(automaton: Automaton, rows: Seq<Seq<i32>>, size: nat) -> int {
    square_total(birth_indicator(automaton, rows), size)
}

/// The number of deaths in the next generation of the square of side `size`.
pub open spec fn death_count(automaton: Automaton, rows: Seq<Seq<i32>>, size: nat) -> int {
    square_total(death_indicator(automaton, rows), size)
}

/// 1 on the cells that hold `state`, 0 elsewhere.
pub open spec fn state_indicator(rows: Seq<Seq<i32>>, state: i32) -> spec_fn(int, int) -> int {
    |r: int, c: int|
        if rows[r][c] == state {
            1int
        } else {
            0int
        }
}

/// The number of cells of the square of side `size` that hold `state`.
pub open spec fn state_count(rows: Seq<Seq<i32>>, state: i32, size: nat) -> int {
    square_total(state_indicator(rows, state), size)
}

/// The `size` by `size` square at the origin of `rows`, as a grid of that
/// size.
pub open spec fn square_of(rows: Seq<Seq<i32>>, size: nat) -> Seq<Seq<i32>> {
    Seq::new(size, |r: int| Seq::new(size, |c: int| rows[r][c]))
}

/// The number of cells of the square of side `size` whose state and number
/// of live neighbours satisfy `pred`.
pub open spec fn count_cells(rows: Seq<Seq<i32>>, size: nat, pred: spec_fn(i32, int) -> bool) -> int {
    square_total(
        |r: int, c: int|
            if pred(rows[r][c], alive_neighbor_count(rows, r, c)) {
                1int
            } else {
                0int
            },
        size,
    )
}

/// A 0/1 quantity that is 1 exactly on the cells satisfying `pred` sums to
/// the number of those cells.
pub proof fn lemma_total_is_count_cells(
    f: spec_fn(int, int) -> int,
    rows: Seq<Seq<i32>>,
    size: nat,
    pred: spec_fn(i32, int) -> bool,
)
    requires
        forall|r: int, c: int|
            0 <= r < size && 0 <= c < size ==> #[trigger] f(r, c) == (if pred(
                rows[r][c],
                alive_neighbor_count(rows, r, c),
            ) {
                1int
            } else {
                0int
            }),
    ensures
        square_total(f, size) == count_cells(rows, size, pred),
{
    let g = |r: int, c: int|
        if pred(rows[r][c], alive_neighbor_count(rows, r, c)) {
            1int
        } else {
            0int
        };
    assert forall|r: int, c: int| 0 <= r < size && 0 <= c < size implies #[trigger] f(r, c) == g(r, c)
        + g(r, c) - g(r, c) by {}
    lemma_square_sum_linear(f, g, g, g, size, size);
}

/// What a generation of side `size` asks of its input: every cell of the
/// square is inside the grid, the new grid can be allocated, and both counts
/// fit in the `i32` that holds them.
pub open spec fn can_simulate(automaton: Automaton, rows: Seq<Seq<i32>>, size: nat) -> bool {
    &&& covers_square(rows, size)
    &&& allocatable(size, size)
    &&& birth_count(automaton, rows, size) <= i32::MAX
    &&& death_count(automaton, rows, size) <= i32::MAX
}

/// Each count of a generation is at most the number of cells of the square,
/// so it fits in an `i32` wherever that number does.
pub proof fn lemma_counts_at_most_cells(automaton: Automaton, rows: Seq<Seq<i32>>, size: nat)
    ensures
        0 <= birth_count(automaton, rows, size) <= size * size,
        0 <= death_count(automaton, rows, size) <= size * size,
{
    assert(is_indicator_on(birth_indicator(automaton, rows), size));
    assert(is_indicator_on(death_indicator(automaton, rows), size));
    lemma_square_sum_at_most_cells(birth_indicator(automaton, rows), size, size);
    lemma_square_sum_at_most_cells(death_indicator(automaton, rows), size, size);
}

/// The new grid part way through a generation: the cells before
/// (`row`, `col`) in visiting order hold their next state, the rest 0.
spec fn partial_next(automaton: Automaton, rows: Seq<Seq<i32>>, size: nat, row: int, col: int) -> Seq<Seq<i32>> {
    Seq::new(
        size,
        |r: int|
            Seq::new(
                size,
                |c: int|
                    if r < row || (r == row && c < col) {
                        next_cell_state(automaton, rows, r, c)
                    } else {
                        0
                    },
            ),
    )
}

proof fn lemma_side_below_isize_max(size: nat)
    requires
        allocatable(size, size),
    ensures
        size < isize::MAX,
{
    assert(size <= size * size * 4) by (nonlinear_arith)
        requires
            size >= 0,
    {
        if size > 0 {
            assert(size * size >= size);
        }
    }
}

/// The next state of one cell, and whether its step is a birth or a death.
fn next_cell(automaton: Automaton, state: i32, alive: i32) -> (res: (i32, bool, bool))
    ensures
        res.0 == next_state(automaton, state, alive as int),
        res.1 == is_birth(automaton, state, alive as int),
        res.2 == is_death(automaton, state, alive as int),
{
    match automaton {
        Automaton::Conway => {
            if state == 1 && (alive < 2 || alive > 3) {
                // A live cell that is isolated or overpopulated dies.
                (0, false, true)
            } else if state == 0 && alive == 3 {
                // A dead cell with exactly three live neighbours comes to life.
                (1, true, false)
            } else {
                (state, false, false)
            }
        },
        Automaton::LifeWithoutDeath => {
            if state == 0 && alive == 3 {
                (1, true, false)
            } else {
                // Once alive, a cell never dies.
                (state, false, false)
            }
        },
        Automaton::Seeds => {
            if state == 0 && alive == 2 {
                (1, true, false)
            } else {
                // Every other cell is dead next; a live one has died.
                (0, false, state == 1)
            }
        },
        Automaton::BriansBrain => {
            match state {
                0 => if alive == 2 {
                    (1, true, false)
                } else {
                    (0, false, false)
                },
                1 => (2, false, false),
                2 => (3, false, true),
                3 => if alive == 2 {
                    (1, true, false)
                } else {
                    (3, false, false)
                },
                _ => (0, false, false),
            }
        },
    }
}

/// Computes the next generation of the `grid_size` by `grid_size` square at
/// the origin of `grid` under `automaton`, with its births and deaths.
pub(crate) fn simulate_generation(grid: &Array2D<i32>, grid_size: usize, automaton: Automaton) -> (res: (
    Array2D<i32>,
    usize,
    usize,
))
    requires
        covers_square(grid_rows(*grid), grid_size as nat),
        allocatable(grid_size as nat, grid_size as nat),
    ensures
        grid_rows(res.0) == next_rows(automaton, grid_rows(*grid), grid_size as nat),
        res.1 == birth_count(automaton, grid_rows(*grid), grid_size as nat),
        res.2 == death_count(automaton, grid_rows(*grid), grid_size as nat),
{
    let ghost rows = grid_rows(*grid);
    let ghost n = grid_size as nat;
    let ghost births_f = birth_indicator(automaton, rows);
    let ghost deaths_f = death_indicator(automaton, rows);
    proof {
        lemma_side_below_isize_max(n);
        lemma_counts_at_most_cells(automaton, rows, n);
        assert(is_indicator_on(births_f, n));
        assert(is_indicator_on(deaths_f, n));
    }
    let mut new_grid = grid_filled_with(0, grid_size, grid_size);
    let mut births: usize = 0;
    let mut deaths: usize = 0;
    proof {
        assert(grid_rows(new_grid) =~~= partial_next(automaton, rows, n, 0, 0));
    }
    let mut row: usize = 0;
    while row < grid_size
        invariant
            row <= grid_size,
            n == grid_size,
            grid_size < isize::MAX,
            rows == grid_rows(*grid),
            covers_square(rows, n),
            allocatable(n, n),
            birth_count(automaton, rows, n) <= n * n,
            death_count(automaton, rows, n) <= n * n,
            births_f == birth_indicator(automaton, rows),
            deaths_f == death_indicator(automaton, rows),
            is_indicator_on(births_f, n),
            is_indicator_on(deaths_f, n),
            grid_rows(new_grid) == partial_next(automaton, rows, n, row as int, 0),
            births == square_sum(births_f, n, row as nat),
            deaths == square_sum(deaths_f, n, row as nat),
        decreases grid_size - row,
    {
        let mut col: usize = 0;
        while col < grid_size
            invariant
                row < grid_size,
                col <= grid_size,
                n == grid_size,
                grid_size < isize::MAX,
                rows == grid_rows(*grid),
                covers_square(rows, n),
            allocatable(n, n),
            birth_count(automaton, rows, n) <= n * n,
            death_count(automaton, rows, n) <= n * n,
                births_f == birth_indicator(automaton, rows),
                deaths_f == death_indicator(automaton, rows),
                is_indicator_on(births_f, n),
                is_indicator_on(deaths_f, n),
                grid_rows(new_grid) == partial_next(automaton, rows, n, row as int, col as int),
                births == square_sum(births_f, n, row as nat) + row_sum(births_f, row as int, col as nat),
                deaths == square_sum(deaths_f, n, row as nat) + row_sum(deaths_f, row as int, col as nat),
            decreases grid_size - col,
        {
            // How many neighbours of the cell are alive, and its own state.
            let alive = check_alive_neighbors(grid, row, col);
            assert(rows[row as int].len() >= n);
            let state = grid_get(grid, row, col).unwrap();
            let (next, born, died) = next_cell(automaton, state, alive);
            proof {
                lemma_partial_sum_within_total(births_f, n, row as nat, (col + 1) as nat);
                lemma_partial_sum_within_total(deaths_f, n, row as nat, (col + 1) as nat);
            }
            if born {
                births = births + 1;
            }
            if died {
                deaths = deaths + 1;
            }
            let _ = grid_set(&mut new_grid, row, col, next);
            proof {
                assert(grid_rows(new_grid) =~~= partial_next(
                    automaton,
                    rows,
                    n,
                    row as int,
                    (col + 1) as int,
                ));
            }
            col = col + 1;
        }
        proof {
            assert(partial_next(automaton, rows, n, row as int, n as int) =~~= partial_next(
                automaton,
                rows,
                n,
                (row + 1) as int,
                0,
            ));
        }
        row = row + 1;
    }
    proof {
        assert(partial_next(automaton, rows, n, n as int, 0) =~~= next_rows(automaton, rows, n));
    }
    (new_grid, births, deaths)
}

/// Computes the next generation of the `grid_size` by `grid_size` square at
/// the origin of `grid` under `automaton`, with its births and deaths, where
/// the generation functions of the rulesets can; `None` where they cannot
/// (the square does not lie inside the grid, the new grid cannot be
/// allocated, or a count does not fit in an `i32`).
pub fn try_simulate_generation(grid: &Array2D<i32>, grid_size: usize, automaton: Automaton) -> (res:
    Option<(Array2D<i32>, i32, i32)>)
    ensures
        res is Some <==> can_simulate(automaton, grid_rows(*grid), grid_size as nat),
        res matches Some(r) ==> {
            &&& grid_rows(r.0) == next_rows(automaton, grid_rows(*grid), grid_size as nat)
            &&& r.1 == birth_count(automaton, grid_rows(*grid), grid_size as nat)
            &&& r.2 == death_count(automaton, grid_rows(*grid), grid_size as nat)
        },
{
    let ghost rows = grid_rows(*grid);
    let num_rows = grid_num_rows(grid);
    if num_rows < grid_size {
        return None;
    }
    if grid_size > 0 {
        let num_columns = grid_num_columns(grid);
        assert(rows[0].len() == num_columns);
        if num_columns < grid_size {
            return None;
        }
    }
    assert(covers_square(rows, grid_size as nat));
    let cells = match grid_size.checked_mul(grid_size) {
        Some(cells) => cells,
        None => {
            assert(!allocatable(grid_size as nat, grid_size as nat));
            return None;
        },
    };
    let bytes = match cells.checked_mul(4) {
        Some(bytes) => bytes,
        None => {
            assert(!allocatable(grid_size as nat, grid_size as nat));
            return None;
        },
    };
    if bytes > isize::MAX as usize {
        return None;
    }
    let (next, births, deaths) = simulate_generation(grid, grid_size, automaton);
    if births > i32::MAX as usize || deaths > i32::MAX as usize {
        return None;
    }
    Some((next, births as i32, deaths as i32))
}

/// Whether a simulation stops after a generation with these counts: it had
/// neither births nor deaths. For Conway and Life without Death the grid is
/// then unchanged; for Seeds on grids of 0s and 1s too; for Brian's Brain only
/// where no cell is alive (state 1), since a live cell still starts dying
/// (see the stability laws of the rulesets).
pub fn generation_is_quiet(births: i32, deaths: i32) -> (quiet: bool)
    ensures
        quiet == (births == 0 && deaths == 0),
{
    births == 0 && deaths == 0
}

} // verus!
