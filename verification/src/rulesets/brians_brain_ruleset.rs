//! Brian's Brain. Four states: 0 empty, 1 alive, 2 dying, 3 dead (a dead
//! cell is marked for display and otherwise behaves as an empty one).

use vstd::prelude::*;
use array2d::Array2D;
use crate::counting::{
    is_indicator_on, lemma_square_sum_linear, lemma_square_sum_zero,
    lemma_zero_total_zero_everywhere,
};
use crate::common::alive_neighbor_count;
use crate::generation::{
    birth_count, birth_indicator, can_simulate, count_cells, death_count, death_indicator,
    lemma_total_is_count_cells, next_rows, simulate_generation, square_of, state_count,
    state_indicator, Automaton,
};
use crate::grid::{allocatable, covers_square, grid_filled_with, grid_rows, grid_set};
use rand::rngs::ThreadRng;
use crate::drawn::{random_in_range, thread_rng, values_of, Drawn};

verus! {

/// Whether `coord` is one of the two middle coordinates `size / 2` and
/// `size / 2 + 1` that the cascade pattern occupies.
pub open spec fn in_cascade_band(size: int, coord: int) -> bool {
    coord == size / 2 || coord == size / 2 + 1
}

/// Whether (`row`, `col`) lies in the square that a random Brian's Brain grid
/// fills: from `size - scaled_size` up to, not including, `scaled_size` on
/// both axes.
pub open spec fn in_random_region(size: int, scaled_size: int, row: int, col: int) -> bool {
    &&& size - scaled_size <= row < scaled_size
    &&& size - scaled_size <= col < scaled_size
}

/// The side of that square: `scaled_size - (size - scaled_size)`, or 0 where
/// the square is empty.
pub open spec fn random_region_side(size: int, scaled_size: int) -> int {
    if scaled_size > size - scaled_size {
        scaled_size - (size - scaled_size)
    } else {
        0
    }
}

/// The `size` by `size` grid that is empty but on the random square, whose
/// cells take `draws` in row-major order over the square.
pub open spec fn random_region_rows(size: nat, scaled_size: nat, draws: Seq<i32>) -> Seq<Seq<i32>> {
    let start = size - scaled_size;
    let side = random_region_side(size as int, scaled_size as int);
    Seq::new(
        size,
        |r: int|
            Seq::new(
                size,
                |c: int|
                    if in_random_region(size as int, scaled_size as int, r, c) {
                        draws[(r - start) * side + (c - start)]
                    } else {
                        0
                    },
            ),
    )
}

/// The cascade grid: empty but on the live two by two block at `size / 2`.
pub open spec fn cascade_rows(size: nat) -> Seq<Seq<i32>> {
    Seq::new(
        size,
        |r: int|
            Seq::new(
                size,
                |c: int|
                    if in_cascade_band(size as int, r) && in_cascade_band(size as int, c) {
                        1i32
                    } else {
                        0i32
                    },
            ),
    )
}

/// The random grid part way through filling the square: the square's cells
/// before (`row`, `col`) hold their draw, every other cell 0.
spec fn partially_drawn(size: nat, scaled_size: nat, draws: Seq<i32>, row: int, col: int) -> Seq<Seq<i32>> {
    Seq::new(
        size,
        |r: int|
            Seq::new(
                size,
                |c: int|
                    if in_random_region(size as int, scaled_size as int, r, c) && (r < row || (r
                        == row && c < col)) {
                        random_region_rows(size, scaled_size, draws)[r][c]
                    } else {
                        0
                    },
            ),
    )
}

proof fn lemma_region_side_bounds(size: nat, scaled_size: nat)
    requires
        scaled_size <= size,
        allocatable(size, size),
    ensures
        0 <= random_region_side(size as int, scaled_size as int) <= size,
        random_region_side(size as int, scaled_size as int) * random_region_side(size as int, scaled_size as int) <= size * size,
        size * size <= usize::MAX,
{
    let side = random_region_side(size as int, scaled_size as int);
    assert(side * side <= size * size) by (nonlinear_arith)
        requires
            0 <= side <= size,
    ;
    assert(size * size <= size * size * 4) by (nonlinear_arith);
}

/// The `grid_size` by `grid_size` Brian's Brain grid that is empty but on the
/// square from `grid_size - scaled_grid_size` up to `scaled_grid_size` on both
/// axes, whose cells take the values of `draws` in row-major order.
pub fn brian_grid_from_draws(grid_size: usize, scaled_grid_size: usize, draws: &Vec<i32>) -> (grid: Array2D<i32>)
    requires
        allocatable(grid_size as nat, grid_size as nat),
        scaled_grid_size <= grid_size,
        draws@.len() == random_region_side(grid_size as int, scaled_grid_size as int) * random_region_side(
            grid_size as int,
            scaled_grid_size as int,
        ),
    ensures
        grid_rows(grid) == random_region_rows(grid_size as nat, scaled_grid_size as nat, draws@),
{
    let ghost n = grid_size as nat;
    let ghost m = scaled_grid_size as nat;
    let ghost side = random_region_side(n as int, m as int);
    proof {
        lemma_region_side_bounds(n, m);
    }
    let mut grid = grid_filled_with(0, grid_size, grid_size);
    let start = grid_size - scaled_grid_size;
    proof {
        assert(grid_rows(grid) =~~= partially_drawn(n, m, draws@, start as int, start as int));
    }
    if start >= scaled_grid_size {
        proof {
            assert(grid_rows(grid) =~~= random_region_rows(n, m, draws@));
        }
        return grid;
    }
    let width = scaled_grid_size - start;
    assert(width == side);
    let mut row: usize = start;
    let mut position: usize = 0;
    while row < scaled_grid_size
        invariant
            n == grid_size,
            m == scaled_grid_size,
            start == grid_size - scaled_grid_size,
            start < scaled_grid_size <= grid_size,
            width == side,
            side == scaled_grid_size - start,
            draws@.len() == side * side,
            side * side <= usize::MAX,
            start <= row <= scaled_grid_size,
            position == (row - start) * side,
            grid_rows(grid) == partially_drawn(n, m, draws@, row as int, start as int),
        decreases scaled_grid_size - row,
    {
        let mut col: usize = start;
        while col < scaled_grid_size
            invariant
                n == grid_size,
                m == scaled_grid_size,
                start == grid_size - scaled_grid_size,
                start < scaled_grid_size <= grid_size,
                width == side,
                side == scaled_grid_size - start,
                draws@.len() == side * side,
                side * side <= usize::MAX,
                start <= row < scaled_grid_size,
                start <= col <= scaled_grid_size,
                position == (row - start) * side + (col - start),
                grid_rows(grid) == partially_drawn(n, m, draws@, row as int, col as int),
            decreases scaled_grid_size - col,
        {
            proof {
                crate::common::lemma_row_major_position(row - start, col - start, side, side);
            }
            let _ = grid_set(&mut grid, row, col, draws[position]);
            proof {
                assert(grid_rows(grid) =~~= partially_drawn(n, m, draws@, row as int, col + 1));
            }
            col = col + 1;
            position = position + 1;
        }
        proof {
            crate::common::lemma_row_major_position(row - start, 0, side, side);
            assert(partially_drawn(n, m, draws@, row as int, scaled_grid_size as int) =~~= partially_drawn(
                n,
                m,
                draws@,
                row + 1,
                start as int,
            ));
        }
        row = row + 1;
    }
    proof {
        assert(partially_drawn(n, m, draws@, scaled_grid_size as int, start as int) =~~= random_region_rows(
            n,
            m,
            draws@,
        ));
    }
    grid
}

/// `count` random cell states, each empty (0) or alive (1), drawn one after
/// another from `rng`.
fn draw_empty_or_alive(rng: &mut ThreadRng, count: usize) -> (draws: Vec<Drawn<i32>>)
    ensures
        draws@.len() == count,
        forall|i: int| 0 <= i < count ==> 0 <= #[trigger] draws@[i]@ <= 1,
{
    let mut draws: Vec<Drawn<i32>> = Vec::new();
    let mut drawn: usize = 0;
    while drawn < count
        invariant
            drawn <= count,
            draws@.len() == drawn,
            forall|i: int| 0 <= i < drawn ==> 0 <= #[trigger] draws@[i]@ <= 1,
        decreases count - drawn,
    {
        // Each cell of the region is either empty or alive.
        draws.push(random_in_range(rng, 0, 1));
        drawn = drawn + 1;
    }
    draws
}

/// A `grid_size` by `grid_size` starting grid for Brian's Brain, every cell
/// empty (0) but: with `cascade`, the live (1) two by two block at
/// `grid_size / 2` (the part of it that lies inside the grid); without, the
/// cells of the square from `grid_size - scaled_grid_size` up to
/// `scaled_grid_size` on both axes, each empty or alive at random, drawn in
/// row-major order (`brian_grid_from_draws`). `scaled_grid_size` is the grid
/// size scaled by the zoom factor.
pub fn init_brian_grid_scaled(grid_size: usize, scaled_grid_size: usize, cascade: bool) -> (grid: Array2D<i32>)
    requires
        allocatable(grid_size as nat, grid_size as nat),
        scaled_grid_size <= grid_size,
    ensures
        grid_rows(grid).len() == grid_size,
        forall|r: int| 0 <= r < grid_size ==> #[trigger] grid_rows(grid)[r].len() == grid_size,
        cascade ==> grid_rows(grid) == cascade_rows(grid_size as nat),
        !cascade ==> exists|draws: Seq<i32>|
            {
                &&& draws.len() == random_region_side(grid_size as int, scaled_grid_size as int)
                    * random_region_side(grid_size as int, scaled_grid_size as int)
                &&& forall|i: int| 0 <= i < draws.len() ==> 0 <= #[trigger] draws[i] <= 1
                &&& grid_rows(grid) == #[trigger] random_region_rows(
                    grid_size as nat,
                    scaled_grid_size as nat,
                    draws,
                )
            },
        !cascade ==> forall|r: int, c: int|
            0 <= r < grid_size && 0 <= c < grid_size ==> {
                let state = #[trigger] grid_rows(grid)[r][c];
                if in_random_region(grid_size as int, scaled_grid_size as int, r, c) {
                    0 <= state <= 1
                } else {
                    state == 0
                }
            },
{
    let ghost n = grid_size as int;
    let start = grid_size - scaled_grid_size;
    if cascade {
        let mut grid = grid_filled_with(0, grid_size, grid_size);
        let mid = grid_size / 2;
        let _ = grid_set(&mut grid, mid, mid, 1);
        let _ = grid_set(&mut grid, mid, mid + 1, 1);
        let _ = grid_set(&mut grid, mid + 1, mid, 1);
        let _ = grid_set(&mut grid, mid + 1, mid + 1, 1);
        proof {
            assert(grid_rows(grid) =~~= cascade_rows(grid_size as nat));
        }
        grid
    } else {
        let mut rng = thread_rng();
        let side = if scaled_grid_size > start {
            scaled_grid_size - start
        } else {
            0
        };
        proof {
            lemma_region_side_bounds(grid_size as nat, scaled_grid_size as nat);
        }
        let drawn = draw_empty_or_alive(&mut rng, side * side);
        let draws = values_of(&drawn);
        let grid = brian_grid_from_draws(grid_size, scaled_grid_size, &draws);
        proof {
            let d = draws@;
            assert forall|i: int| 0 <= i < d.len() implies 0 <= #[trigger] d[i] <= 1 by {
                assert(d[i] == drawn@[i]@);
            }
            let side_i = random_region_side(n, scaled_grid_size as int);
            assert forall|r: int, c: int| 0 <= r < grid_size && 0 <= c < grid_size implies {
                let state = #[trigger] grid_rows(grid)[r][c];
                if in_random_region(n, scaled_grid_size as int, r, c) {
                    0 <= state <= 1
                } else {
                    state == 0
                }
            } by {
                if in_random_region(n, scaled_grid_size as int, r, c) {
                    let st = n - scaled_grid_size;
                    crate::common::lemma_row_major_position(r - st, c - st, side_i, side_i);
                    assert(0 <= d[(r - st) * side_i + (c - st)] <= 1);
                }
            }
        }
        grid
    }
}

/// Computes the next Brian's Brain generation of the `grid_size` by
/// `grid_size` square at the origin of `grid`: an empty or dead cell with
/// exactly two live neighbours comes to life (otherwise an empty cell stays
/// empty and a dead one stays dead), a live cell starts dying, a dying cell
/// becomes dead, and a cell in any other state becomes empty. Returns the
/// new grid with the numbers of cells that came to life and of dying cells
/// that became dead.
pub fn simulate_brian_generation(grid: &Array2D<i32>, grid_size: usize) -> (res: (Array2D<i32>, i32, i32))
    requires
        can_simulate(Automaton::BriansBrain, grid_rows(*grid), grid_size as nat),
    ensures
        grid_rows(res.0) == next_rows(Automaton::BriansBrain, grid_rows(*grid), grid_size as nat),
        res.1 == birth_count(Automaton::BriansBrain, grid_rows(*grid), grid_size as nat),
        res.2 == death_count(Automaton::BriansBrain, grid_rows(*grid), grid_size as nat),
{
    let (next, births, deaths) = simulate_generation(grid, grid_size, Automaton::BriansBrain);
    (next, births as i32, deaths as i32)
}

/// Every cell of the next generation is in one of the four states; a live
/// cell is dying next, and a dying cell is dead next.
pub proof fn brian_state_cycle(rows: Seq<Seq<i32>>, size: nat)
    requires
        covers_square(rows, size),
    ensures
        forall|r: int, c: int|
            0 <= r < size && 0 <= c < size ==> {
                let next = #[trigger] next_rows(Automaton::BriansBrain, rows, size)[r][c];
                &&& 0 <= next <= 3
                &&& rows[r][c] == 1 ==> next == 2
                &&& rows[r][c] == 2 ==> next == 3
            },
{
}

/// The live cells of the next generation are the births, its dying cells are
/// the live cells of this one, and the deaths are the dying cells of this one.
pub proof fn brian_population_balance(rows: Seq<Seq<i32>>, size: nat)
    requires
        covers_square(rows, size),
    ensures
        state_count(next_rows(Automaton::BriansBrain, rows, size), 1, size) == birth_count(
            Automaton::BriansBrain,
            rows,
            size,
        ),
        state_count(next_rows(Automaton::BriansBrain, rows, size), 2, size) == state_count(
            rows,
            1,
            size,
        ),
        death_count(Automaton::BriansBrain, rows, size) == state_count(rows, 2, size),
{
    let next = next_rows(Automaton::BriansBrain, rows, size);
    let births = birth_indicator(Automaton::BriansBrain, rows);
    let deaths = death_indicator(Automaton::BriansBrain, rows);
    let none = |r: int, c: int| 0int;
    lemma_square_sum_zero(none, size, size);
    lemma_square_sum_linear(state_indicator(next, 1), births, none, none, size, size);
    lemma_square_sum_linear(state_indicator(next, 2), state_indicator(rows, 1), none, none, size, size);
    lemma_square_sum_linear(deaths, state_indicator(rows, 2), none, none, size, size);
}

/// On a grid of the four states without live cells, a generation without
/// births or deaths leaves the grid as it was.
pub proof fn brian_stable_without_births_or_deaths(rows: Seq<Seq<i32>>, size: nat)
    requires
        covers_square(rows, size),
        forall|r: int, c: int|
            0 <= r < size && 0 <= c < size ==> 0 <= #[trigger] rows[r][c] <= 3 && rows[r][c] != 1,
        birth_count(Automaton::BriansBrain, rows, size) == 0,
        death_count(Automaton::BriansBrain, rows, size) == 0,
    ensures
        next_rows(Automaton::BriansBrain, rows, size) == square_of(rows, size),
{
    let births = birth_indicator(Automaton::BriansBrain, rows);
    let deaths = death_indicator(Automaton::BriansBrain, rows);
    assert(is_indicator_on(births, size));
    assert(is_indicator_on(deaths, size));
    lemma_zero_total_zero_everywhere(births, size);
    lemma_zero_total_zero_everywhere(deaths, size);
    assert forall|r: int, c: int| 0 <= r < size && 0 <= c < size implies
        #[trigger] next_rows(Automaton::BriansBrain, rows, size)[r][c] == rows[r][c] by {
        assert(births(r, c) == 0);
        assert(deaths(r, c) == 0);
        assert(0 <= rows[r][c] <= 3 && rows[r][c] != 1);
    }
    assert(next_rows(Automaton::BriansBrain, rows, size) =~~= square_of(rows, size));
}

/// The rule of Brian's Brain, cell by cell, with `k` the cell's number of live
/// neighbours: an empty (0) or dead (3) cell with exactly two comes to life (1)
/// and counts as a birth; otherwise an empty cell stays empty and a dead one
/// stays dead; a live cell is dying (2) next; a dying cell is dead (3) next and
/// counts as a death; a cell in any other state is empty next. Births and
/// deaths are exactly those cells.
pub proof fn brian_rule(rows: Seq<Seq<i32>>, size: nat)
    requires
        covers_square(rows, size),
    ensures
        forall|r: int, c: int|
            0 <= r < size && 0 <= c < size ==> {
                let state = rows[r][c];
                let k = alive_neighbor_count(rows, r, c);
                let next = #[trigger] next_rows(Automaton::BriansBrain, rows, size)[r][c];
                let born = birth_indicator(Automaton::BriansBrain, rows)(r, c) == 1;
                let died = death_indicator(Automaton::BriansBrain, rows)(r, c) == 1;
                &&& (state == 0 || state == 3) && k == 2 ==> next == 1 && born && !died
                &&& state == 0 && k != 2 ==> next == 0 && !born && !died
                &&& state == 3 && k != 2 ==> next == 3 && !born && !died
                &&& state == 1 ==> next == 2 && !born && !died
                &&& state == 2 ==> next == 3 && died && !born
                &&& !(0 <= state <= 3) ==> next == 0 && !born && !died
            },
        birth_count(Automaton::BriansBrain, rows, size) == count_cells(
            rows,
            size,
            |state: i32, k: int| (state == 0 || state == 3) && k == 2,
        ),
        death_count(Automaton::BriansBrain, rows, size) == count_cells(
            rows,
            size,
            |state: i32, k: int| state == 2,
        ),
{
    lemma_total_is_count_cells(
        birth_indicator(Automaton::BriansBrain, rows),
        rows,
        size,
        |state: i32, k: int| (state == 0 || state == 3) && k == 2,
    );
    lemma_total_is_count_cells(
        death_indicator(Automaton::BriansBrain, rows),
        rows,
        size,
        |state: i32, k: int| state == 2,
    );
}

} // verus!
