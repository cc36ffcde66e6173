//! The grid type of the automata, `array2d::Array2D<i32>`, and the calls
//! into it that the library makes.

use vstd::prelude::*;
use array2d::Array2D;

verus! {

/// `array2d::Array2D`, the fixed-size two-dimensional array that holds a
/// grid; what it holds is seen only through `grid_rows`.
#[verifier::external_type_specification]
#[verifier::external_body]
#[verifier::reject_recursive_types(T)]
pub struct ExArray2D<T>(array2d::Array2D<T>);

/// `array2d::Error`, the error of an out-of-bounds write.
#[verifier::external_type_specification]
#[verifier::external_body]
pub struct ExArray2DError(array2d::Error);

/// What an `Array2D<i32>` holds: its rows in order, each row holding the
/// row's cells from column 0 on (all rows of one grid have the same length,
/// the grid's number of columns). The wrappers below state every call that
/// the library makes over it.
pub uninterp spec fn grid_rows(grid: Array2D<i32>) -> Seq<Seq<i32>>;

/// The state at (`row`, `col`), if that position lies inside `rows`.
pub open spec fn cell_at(rows: Seq<Seq<i32>>, row: int, col: int) -> Option<i32> {
    if 0 <= row < rows.len() && 0 <= col < rows[row].len() {
        Some(rows[row][col])
    } else {
        None
    }
}

/// A grid of `num_rows` rows of `num_columns` cells, each holding `value`.
pub open spec fn filled_rows(value: i32, num_rows: nat, num_columns: nat) -> Seq<Seq<i32>> {
    Seq::new(num_rows, |r: int| Seq::new(num_columns, |c: int| value))
}

/// Whether every position of the `size` by `size` square at the origin lies
/// inside `rows`.
pub open spec fn covers_square(rows: Seq<Seq<i32>>, size: nat) -> bool {
    &&& size <= rows.len()
    &&& forall|r: int| 0 <= r < size ==> size <= #[trigger] rows[r].len()
}

/// Whether a grid of `num_rows` by `num_columns` cells of `i32` can be
/// allocated at all: its element count, in bytes, fits in `isize`.
pub open spec fn allocatable(num_rows: nat, num_columns: nat) -> bool {
    num_rows * num_columns * 4 <= isize::MAX
}

/// `Array2D::filled_with`: a grid of `num_rows` rows of `num_columns` cells,
/// every one `value`. The element count is computed as a product and the
/// cells are allocated as one vector, so the call is only made where both
/// fit.
#[verifier::external_body]
pub(crate) fn grid_filled_with(value: i32, num_rows: usize, num_columns: usize) -> (grid: Array2D<i32>)
    requires
        allocatable(num_rows as nat, num_columns as nat),
    ensures
        grid_rows(grid) == filled_rows(value, num_rows as nat, num_columns as nat),
{
    Array2D::filled_with(value, num_rows, num_columns)
}

/// `Array2D::get`: the cell at (`row`, `col`), `None` outside the grid.
#[verifier::external_body]
pub(crate) fn grid_get(grid: &Array2D<i32>, row: usize, col: usize) -> (cell: Option<i32>)
    ensures
        cell == cell_at(grid_rows(*grid), row as int, col as int),
{
    grid.get(row, col).copied()
}

/// `Array2D::set`: inside the grid it writes `value` at (`row`, `col`) and
/// returns `Ok`; outside it changes nothing and returns the crate's
/// out-of-bounds error.
#[verifier::external_body]
pub(crate) fn grid_set(grid: &mut Array2D<i32>, row: usize, col: usize, value: i32) -> (res: Result<(), array2d::Error>)
    ensures
        cell_at(grid_rows(*old(grid)), row as int, col as int) is Some ==> {
            &&& res is Ok
            &&& grid_rows(*final(grid)) == grid_rows(*old(grid)).update(
                row as int,
                grid_rows(*old(grid))[row as int].update(col as int, value),
            )
        },
        cell_at(grid_rows(*old(grid)), row as int, col as int) is None ==> {
            &&& res is Err
            &&& grid_rows(*final(grid)) == grid_rows(*old(grid))
        },
{
    grid.set(row, col, value)
}

/// `Array2D::num_rows`: the number of rows.
#[verifier::external_body]
pub(crate) fn grid_num_rows(grid: &Array2D<i32>) -> (n: usize)
    ensures
        n == grid_rows(*grid).len(),
{
    grid.num_rows()
}

/// `Array2D::num_columns`: the number of columns, the length of every row.
#[verifier::external_body]
pub(crate) fn grid_num_columns(grid: &Array2D<i32>) -> (n: usize)
    ensures
        forall|r: int| 0 <= r < grid_rows(*grid).len() ==> #[trigger] grid_rows(*grid)[r].len() == n,
{
    grid.num_columns()
}

} // verus!
