//! The weeks grid: one cell per week of the lifespan, row by row.

use vstd::prelude::*;

verus! {

/// Rows of the weeks grid.
pub const GRID_ROWS: usize = 30;

/// Columns of the weeks grid: three years of 52 weeks.
pub const GRID_COLUMNS: usize = 156;

/// The cell at `row`, `col` stands for a week already lived.
pub open spec fn week_lived(row: int, col: int, lived_weeks: int) -> bool {
    row * GRID_COLUMNS + col < lived_weeks
}

/// `grid` is the weeks grid for `lived_weeks`: `GRID_ROWS` rows of
/// `GRID_COLUMNS` cells, a cell `true` exactly when its row-major index is
/// below `lived_weeks`.
pub open spec fn is_week_grid(grid: Seq<Vec<bool>>, lived_weeks: int) -> bool {
    &&& grid.len() == GRID_ROWS
    &&& forall|i: int| 0 <= i < GRID_ROWS ==> (#[trigger] grid[i])@.len() == GRID_COLUMNS
    &&& forall|i: int, j: int|
        0 <= i < GRID_ROWS && 0 <= j < GRID_COLUMNS ==> (#[trigger] grid[i]@[j]) == week_lived(
            i,
            j,
            lived_weeks,
        )
}

fn grid_row(row: usize, lived_weeks: usize) -> (r: Vec<bool>)
    requires
        row < GRID_ROWS,
    ensures
        r@.len() == GRID_COLUMNS,
        forall|j: int| 0 <= j < GRID_COLUMNS ==> r@[j] == week_lived(row as int, j, lived_weeks as int),
{
    let mut cells: Vec<bool> = Vec::new();
    let mut col: usize = 0;
    while col < GRID_COLUMNS
        invariant
            row < GRID_ROWS,
            col <= GRID_COLUMNS,
            cells@.len() == col,
            forall|j: int| 0 <= j < col ==> cells@[j] == week_lived(row as int, j, lived_weeks as int),
        decreases GRID_COLUMNS - col,
    {
        cells.push(row * GRID_COLUMNS + col < lived_weeks);
        col = col + 1;
    }
    cells
}

/// Builds the weeks grid: which of the lifespan's weeks are lived.
pub fn week_grid(lived_weeks: usize) -> (r: Vec<Vec<bool>>)
    ensures
        is_week_grid(r@, lived_weeks as int),
{
    let mut grid: Vec<Vec<bool>> = Vec::new();
    let mut row: usize = 0;
    while row < GRID_ROWS
        invariant
            row <= GRID_ROWS,
            grid@.len() == row,
            forall|i: int| 0 <= i < row ==> (#[trigger] grid@[i])@.len() == GRID_COLUMNS,
            forall|i: int, j: int|
                0 <= i < row && 0 <= j < GRID_COLUMNS ==> (#[trigger] grid@[i]@[j]) == week_lived(
                    i,
                    j,
                    lived_weeks as int,
                ),
        decreases GRID_ROWS - row,
    {
        let cells = grid_row(row, lived_weeks);
        grid.push(cells);
        row = row + 1;
    }
    grid
}

} // verus!
