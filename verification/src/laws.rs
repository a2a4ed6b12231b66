//! What holds of every universe, whatever its size and content.

use crate::cell::Cell;
use crate::grid::{lemma_index_in_range, lemma_index_splits, lemma_position_of_index, Grid};
use vstd::prelude::*;

verus! {

/// Clearing, toggling a cell inside the grid, setting cells alive and a tick
/// all leave a grid with the same dimensions and one cell per position.
pub proof fn lemma_operations_keep_shape(
    grid: Grid,
    row: int,
    col: int,
    positions: Seq<(u32, u32)>,
)
    requires
        grid.wf(),
        grid.in_bounds(row, col),
    ensures
        grid.cleared().wf(),
        grid.toggled(row, col).wf(),
        grid.with_alive(positions).wf(),
        grid.tick().wf(),
        grid.cleared().width == grid.width && grid.cleared().height == grid.height,
        grid.toggled(row, col).width == grid.width && grid.toggled(row, col).height == grid.height,
        grid.with_alive(positions).width == grid.width && grid.with_alive(positions).height
            == grid.height,
        grid.tick().width == grid.width && grid.tick().height == grid.height,
{
    lemma_index_in_range(grid.width as int, grid.height as int, row, col);
}

/// After a tick, the cell at each position inside the grid is what the rule
/// makes of that cell and its eight neighbours before the tick.
pub proof fn lemma_tick_cell(grid: Grid, row: int, col: int)
    requires
        grid.wf(),
        grid.in_bounds(row, col),
    ensures
        grid.tick().cell(row, col) == grid.next_cell(row, col),
{
    lemma_index_in_range(grid.width as int, grid.height as int, row, col);
    lemma_index_splits(grid.width as int, row, col);
}

/// A cleared grid has no live cell: whatever lists its live cells is empty.
pub proof fn lemma_cleared_has_no_living(grid: Grid, listing: Seq<(i64, i64)>)
    requires
        grid.wf(),
        grid.cleared().living_listing(listing),
    ensures
        listing.len() == 0,
        grid.cleared().all_dead(),
{
    if listing.len() > 0 {
        let x = listing[0].0 as int;
        let y = listing[0].1 as int;
        assert(grid.cleared().is_living(x, y));
        lemma_index_in_range(grid.width as int, grid.height as int, y, x);
    }
}

/// No spontaneous life: a tick of a grid without a live cell changes nothing.
pub proof fn lemma_no_spontaneous_life(grid: Grid)
    requires
        grid.wf(),
        grid.all_dead(),
    ensures
        grid.tick().all_dead(),
        grid.tick() == grid,
{
    let width = grid.width as int;
    let height = grid.height as int;
    assert forall|i: int| 0 <= i < grid.cells.len() implies grid.tick().cells[i]
        == Cell::Dead by {
        lemma_position_of_index(width, height, i);
        let row = i / width;
        let col = i % width;
        lemma_all_dead_has_no_live_neighbor(grid, row, col);
    }
    assert(grid.tick().cells =~= grid.cells);
}

/// In a grid without a live cell, no position has a live neighbour.
pub proof fn lemma_all_dead_has_no_live_neighbor(grid: Grid, row: int, col: int)
    requires
        grid.wf(),
        grid.all_dead(),
    ensures
        grid.live_neighbors(row, col) == 0,
{
    assert forall|r: int, c: int| grid.live(r, c) == 0 by {
        let wrapped_row = r % (grid.height as int);
        let wrapped_col = c % (grid.width as int);
        vstd::arithmetic::div_mod::lemma_mod_bound(r, grid.height as int);
        vstd::arithmetic::div_mod::lemma_mod_bound(c, grid.width as int);
        lemma_index_in_range(grid.width as int, grid.height as int, wrapped_row, wrapped_col);
    }
}

/// Underpopulation: a live cell with fewer than two live neighbours is dead
/// after a tick. A live cell without any live neighbour is such a cell.
pub proof fn lemma_lonely_cell_dies(grid: Grid, row: int, col: int)
    requires
        grid.wf(),
        grid.in_bounds(row, col),
        grid.cell(row, col) == Cell::Alive,
        grid.live_neighbors(row, col) < 2,
    ensures
        grid.tick().cell(row, col) == Cell::Dead,
{
    lemma_tick_cell(grid, row, col);
}

/// Survival: a live cell with two or three live neighbours is alive after a
/// tick.
pub proof fn lemma_settled_cell_survives(grid: Grid, row: int, col: int)
    requires
        grid.wf(),
        grid.in_bounds(row, col),
        grid.cell(row, col) == Cell::Alive,
        grid.live_neighbors(row, col) == 2 || grid.live_neighbors(row, col) == 3,
    ensures
        grid.tick().cell(row, col) == Cell::Alive,
{
    lemma_tick_cell(grid, row, col);
}

/// Overpopulation: a live cell with more than three live neighbours is dead
/// after a tick.
pub proof fn lemma_crowded_cell_dies(grid: Grid, row: int, col: int)
    requires
        grid.wf(),
        grid.in_bounds(row, col),
        grid.cell(row, col) == Cell::Alive,
        grid.live_neighbors(row, col) > 3,
    ensures
        grid.tick().cell(row, col) == Cell::Dead,
{
    lemma_tick_cell(grid, row, col);
}

/// Reproduction: a dead cell is alive after a tick exactly when it has three
/// live neighbours.
pub proof fn lemma_birth_takes_three(grid: Grid, row: int, col: int)
    requires
        grid.wf(),
        grid.in_bounds(row, col),
        grid.cell(row, col) == Cell::Dead,
    ensures
        grid.tick().cell(row, col) == Cell::Alive <==> grid.live_neighbors(row, col) == 3,
{
    lemma_tick_cell(grid, row, col);
}

/// Toggling the same cell twice gives the grid back.
pub proof fn lemma_toggle_twice(grid: Grid, row: int, col: int)
    requires
        grid.wf(),
        grid.in_bounds(row, col),
    ensures
        grid.toggled(row, col).toggled(row, col) == grid,
        grid.toggled(row, col).cell(row, col) == grid.cell(row, col).flipped(),
{
    lemma_index_in_range(grid.width as int, grid.height as int, row, col);
    assert(grid.toggled(row, col).toggled(row, col).cells =~= grid.cells);
}

/// Toggling a cell leaves every other cell as it was.
pub proof fn lemma_toggle_touches_one_cell(
    grid: Grid,
    row: int,
    col: int,
    other_row: int,
    other_col: int,
)
    requires
        grid.wf(),
        grid.in_bounds(row, col),
        grid.in_bounds(other_row, other_col),
        other_row != row || other_col != col,
    ensures
        grid.toggled(row, col).cell(other_row, other_col) == grid.cell(other_row, other_col),
{
    let width = grid.width as int;
    lemma_index_in_range(width, grid.height as int, row, col);
    lemma_index_in_range(width, grid.height as int, other_row, other_col);
    lemma_index_splits(width, row, col);
    lemma_index_splits(width, other_row, other_col);
}

/// Clearing twice is clearing once.
pub proof fn lemma_clear_is_idempotent(grid: Grid)
    requires
        grid.wf(),
    ensures
        grid.cleared().cleared() == grid.cleared(),
{
}

} // verus!
