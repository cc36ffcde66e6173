//! What every ruleset shares: the count of live neighbours of a cell, the
//! random starting grid of dead and live cells, and how a cell is shown on a
//! text console.

use vstd::prelude::*;
use array2d::Array2D;
use crate::counting::{row_sum, square_sum};
use crate::drawn::{random_sample, values_of, Drawn};
use crate::grid::{
    allocatable, cell_at, filled_rows, grid_filled_with, grid_get, grid_rows, grid_set,
};

verus! {

/// The coordinate `delta` steps from `coord` on a `usize` axis, wrapping at
/// both ends of the axis (as `(coord as isize + delta) as usize` does).
pub open spec fn shifted(coord: int, delta: int) -> int {
    let x = coord + delta;
    if x < 0 {
        x + usize::MAX + 1
    } else if x > usize::MAX {
        x - usize::MAX - 1
    } else {
        x
    }
}

/// Whether one step either way from `coord`, taken in `isize`, stays inside
/// `isize`.
pub open spec fn steps_within_isize(coord: int) -> bool {
    coord != isize::MAX && coord != isize::MAX + 1
}

/// 1 where the grid holds a live cell (state 1) at (`row`, `col`), else 0.
pub open spec fn alive_indicator(rows: Seq<Seq<i32>>, row: int, col: int) -> int {
    if cell_at(rows, row, col) == Some(1i32) {
        1
    } else {
        0
    }
}

/// The number of live cells among the eight positions around (`row`, `col`);
/// positions outside the grid count as not alive.
pub open spec fn alive_neighbor_count(rows: Seq<Seq<i32>>, row: int, col: int) -> int {
    alive_indicator(rows, shifted(row, -1), shifted(col, -1))
        + alive_indicator(rows, shifted(row, -1), col)
        + alive_indicator(rows, shifted(row, -1), shifted(col, 1))
        + alive_indicator(rows, row, shifted(col, -1))
        + alive_indicator(rows, row, shifted(col, 1))
        + alive_indicator(rows, shifted(row, 1), shifted(col, -1))
        + alive_indicator(rows, shifted(row, 1), col)
        + alive_indicator(rows, shifted(row, 1), shifted(col, 1))
}

/// The number of live cells among the eight around (`row`, `col`) is the
/// number of live cells in the three by three block centred there, less the
/// cell itself; positions outside the grid hold no live cell, so nothing
/// wraps round the edges.
pub proof fn neighbor_count_is_block_less_center(rows: Seq<Seq<i32>>, row: int, col: int)
    requires
        rows.len() <= usize::MAX,
        forall|r: int| 0 <= r < rows.len() ==> #[trigger] rows[r].len() <= usize::MAX,
        0 <= row < usize::MAX,
        0 <= col < usize::MAX,
    ensures
        alive_neighbor_count(rows, row, col) == square_sum(
            |i: int, j: int| alive_indicator(rows, row - 1 + i, col - 1 + j),
            3,
            3,
        ) - alive_indicator(rows, row, col),
        0 <= alive_neighbor_count(rows, row, col) <= 8,
{
    let f = |i: int, j: int| alive_indicator(rows, row - 1 + i, col - 1 + j);
    assert(alive_indicator(rows, shifted(row, -1), shifted(col, -1)) == f(0, 0));
    assert(alive_indicator(rows, shifted(row, -1), col) == f(0, 1));
    assert(alive_indicator(rows, shifted(row, -1), shifted(col, 1)) == f(0, 2));
    assert(alive_indicator(rows, row, shifted(col, -1)) == f(1, 0));
    assert(alive_indicator(rows, row, shifted(col, 1)) == f(1, 2));
    assert(alive_indicator(rows, shifted(row, 1), shifted(col, -1)) == f(2, 0));
    assert(alive_indicator(rows, shifted(row, 1), col) == f(2, 1));
    assert(alive_indicator(rows, shifted(row, 1), shifted(col, 1)) == f(2, 2));
    assert(alive_indicator(rows, row, col) == f(1, 1));
    assert(square_sum(f, 3, 3) == f(0, 0) + f(0, 1) + f(0, 2) + f(1, 0) + f(1, 1) + f(1, 2) + f(2, 0)
        + f(2, 1) + f(2, 2)) by {
        reveal_with_fuel(square_sum, 4);
        reveal_with_fuel(row_sum, 4);
    }
}

fn step_back(coord: usize) -> (res: usize)
    ensures
        res == shifted(coord as int, -1),
{
    if coord == 0 {
        usize::MAX
    } else {
        coord - 1
    }
}

fn step_forward(coord: usize) -> (res: usize)
    ensures
        res == shifted(coord as int, 1),
{
    if coord == usize::MAX {
        0
    } else {
        coord + 1
    }
}

fn alive_at(grid: &Array2D<i32>, row: usize, col: usize) -> (res: i32)
    ensures
        res == alive_indicator(grid_rows(*grid), row as int, col as int),
{
    match grid_get(grid, row, col) {
        Some(1) => 1,
        _ => 0,
    }
}

/// Checks all 8 neighbours of a cell to see how many are alive (state 1) and
/// returns that number. Neighbours outside the grid are not alive; the grid
/// does not wrap around its edges.
pub fn check_alive_neighbors(grid: &Array2D<i32>, row: usize, col: usize) -> (count: i32)
    requires
        steps_within_isize(row as int),
        steps_within_isize(col as int),
    ensures
        count == alive_neighbor_count(grid_rows(*grid), row as int, col as int),
        0 <= count <= 8,
{
    let up = step_back(row);
    let down = step_forward(row);
    let left = step_back(col);
    let right = step_forward(col);
    let mut count: i32 = 0;
    count = count + alive_at(grid, up, left);
    count = count + alive_at(grid, up, col);
    count = count + alive_at(grid, up, right);
    count = count + alive_at(grid, row, left);
    count = count + alive_at(grid, row, right);
    count = count + alive_at(grid, down, left);
    count = count + alive_at(grid, down, col);
    count = count + alive_at(grid, down, right);
    count
}

/// The state that a random sample gives a cell of a fresh grid: alive (1)
/// where the sample is non-zero and greater than the density coefficient,
/// dead (0) otherwise.
pub open spec fn seeded_state(sample: int, density_coef: int) -> i32 {
    if sample != 0 && sample > density_coef {
        1
    } else {
        0
    }
}

/// The state that the random `sample` gives a cell of a fresh grid.
pub fn state_from_sample(sample: i8, density_coef: i8) -> (state: i32)
    ensures
        state == seeded_state(sample as int, density_coef as int),
{
    if sample == 0 {
        0
    } else if sample > density_coef {
        1
    } else {
        0
    }
}

/// A sample makes a cell alive exactly when it is non-zero and exceeds the
/// density coefficient; a zero sample never does; and raising the coefficient
/// never turns a dead cell alive.
pub proof fn seeded_state_law(sample: int, density_coef: int, higher_coef: int)
    requires
        density_coef <= higher_coef,
    ensures
        seeded_state(sample, density_coef) == 0 || seeded_state(sample, density_coef) == 1,
        seeded_state(sample, density_coef) == 1 <==> (sample != 0 && sample > density_coef),
        seeded_state(0, density_coef) == 0,
        seeded_state(sample, higher_coef) <= seeded_state(sample, density_coef),
{
}

/// The `size` by `size` grid whose cell (`r`, `c`) takes its state from
/// `samples[r * size + c]`, the samples taken in row-major order.
pub open spec fn seeded_rows(size: nat, density_coef: int, samples: Seq<i8>) -> Seq<Seq<i32>> {
    Seq::new(
        size,
        |r: int| Seq::new(size, |c: int| seeded_state(samples[r * size + c] as int, density_coef)),
    )
}

/// The grid part way through a row-major fill of `full`: the cells before
/// (`row`, `col`) hold their value, the rest 0.
spec fn partially_filled(full: Seq<Seq<i32>>, size: nat, row: int, col: int) -> Seq<Seq<i32>> {
    Seq::new(
        size,
        |r: int|
            Seq::new(
                size,
                |c: int|
                    if r < row || (r == row && c < col) {
                        full[r][c]
                    } else {
                        0
                    },
            ),
    )
}

/// Row-major positions: the cell (`row`, `col`) of a `height` by `width`
/// block has position `row * width + col`, below `height * width`, and the
/// next row starts `width` further on.
pub proof fn lemma_row_major_position(row: int, col: int, width: int, height: int)
    requires
        0 <= row < height,
        0 <= col < width,
    ensures
        0 <= row * width + col < height * width,
        (row + 1) * width == row * width + width,
{
    assert(0 <= row * width) by (nonlinear_arith)
        requires
            0 <= row,
            0 <= width,
    ;
    assert((row + 1) * width == row * width + width) by (nonlinear_arith);
    assert((row + 1) * width <= height * width) by (nonlinear_arith)
        requires
            row + 1 <= height,
            0 <= width,
    ;
}

/// The `grid_size` by `grid_size` grid whose cells take their states from
/// `samples`, one per cell in row-major order: alive where the sample is
/// non-zero and greater than `density_coef`, dead elsewhere.
pub fn grid_from_samples(grid_size: usize, density_coef: i8, samples: &Vec<i8>) -> (grid: Array2D<i32>)
    requires
        allocatable(grid_size as nat, grid_size as nat),
        samples@.len() == grid_size * grid_size,
    ensures
        grid_rows(grid) == seeded_rows(grid_size as nat, density_coef as int, samples@),
{
    let ghost n = grid_size as nat;
    let ghost full = seeded_rows(n, density_coef as int, samples@);
    let mut grid = grid_filled_with(0, grid_size, grid_size);
    proof {
        assert(grid_size * grid_size <= grid_size * grid_size * 4) by (nonlinear_arith);
        assert(grid_rows(grid) =~~= partially_filled(full, n, 0, 0));
    }
    let mut row: usize = 0;
    let mut position: usize = 0;
    while row < grid_size
        invariant
            row <= grid_size,
            n == grid_size,
            full == seeded_rows(n, density_coef as int, samples@),
            samples@.len() == grid_size * grid_size,
            grid_size * grid_size <= usize::MAX,
            position == row * grid_size,
            grid_rows(grid) == partially_filled(full, n, row as int, 0),
        decreases grid_size - row,
    {
        let mut col: usize = 0;
        while col < grid_size
            invariant
                row < grid_size,
                col <= grid_size,
                n == grid_size,
                full == seeded_rows(n, density_coef as int, samples@),
                samples@.len() == grid_size * grid_size,
                grid_size * grid_size <= usize::MAX,
                position == row * grid_size + col,
                grid_rows(grid) == partially_filled(full, n, row as int, col as int),
            decreases grid_size - col,
        {
            proof {
                lemma_row_major_position(row as int, col as int, grid_size as int, grid_size as int);
            }
            let state = state_from_sample(samples[position], density_coef);
            let _ = grid_set(&mut grid, row, col, state);
            proof {
                assert(grid_rows(grid) =~~= partially_filled(full, n, row as int, col + 1));
            }
            col = col + 1;
            position = position + 1;
        }
        proof {
            lemma_row_major_position(row as int, 0, grid_size as int, grid_size as int);
            assert(partially_filled(full, n, row as int, n as int) =~~= partially_filled(
                full,
                n,
                row + 1,
                0,
            ));
        }
        row = row + 1;
    }
    proof {
        assert(partially_filled(full, n, n as int, 0) =~~= full);
    }
    grid
}

/// `count` random samples, drawn one after another.
fn draw_samples(count: usize) -> (samples: Vec<Drawn<i8>>)
    ensures
        samples@.len() == count,
{
    let mut samples: Vec<Drawn<i8>> = Vec::new();
    let mut drawn: usize = 0;
    while drawn < count
        invariant
            drawn <= count,
            samples@.len() == drawn,
        decreases count - drawn,
    {
        samples.push(random_sample());
        drawn = drawn + 1;
    }
    samples
}

/// Starts a `grid_size` by `grid_size` grid in a random state of 0s and 1s:
/// one random `i8` sample is drawn per cell, in row-major order, and the cell
/// is alive where its sample is non-zero and greater than `density_coef`
/// (`grid_from_samples`). The larger `density_coef`, the fewer live cells; at
/// `i8::MAX` none.
pub fn initialize_grid(grid_size: usize, density_coef: i8) -> (grid: Array2D<i32>)
    requires
        allocatable(grid_size as nat, grid_size as nat),
    ensures
        exists|samples: Seq<i8>|
            samples.len() == grid_size * grid_size && grid_rows(grid) == #[trigger] seeded_rows(
                grid_size as nat,
                density_coef as int,
                samples,
            ),
        grid_rows(grid).len() == grid_size,
        forall|r: int| 0 <= r < grid_size ==> #[trigger] grid_rows(grid)[r].len() == grid_size,
        forall|r: int, c: int|
            0 <= r < grid_size && 0 <= c < grid_size ==> {
                let state = #[trigger] grid_rows(grid)[r][c];
                state == 0 || (state == 1 && density_coef < i8::MAX)
            },
{
    proof {
        assert(grid_size * grid_size <= grid_size * grid_size * 4) by (nonlinear_arith);
    }
    let drawn = draw_samples(grid_size * grid_size);
    let samples = values_of(&drawn);
    let grid = grid_from_samples(grid_size, density_coef, &samples);
    assert(grid_rows(grid) == seeded_rows(grid_size as nat, density_coef as int, samples@));
    grid
}

/// How a console shows a cell: a live cell (state 1) as `"*"`, anything
/// else, including a position outside the grid, as `" "`.
pub fn cell_glyph(cell: Option<i32>) -> (glyph: &'static str)
    ensures
        glyph@ == (if cell == Some(1i32) {
            "*"@
        } else {
            " "@
        }),
{
    match cell {
        Some(0) => " ",
        Some(1) => "*",
        _ => " ",
    }
}

} // verus!
