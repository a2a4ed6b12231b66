//! Two classic patterns and what a tick makes of them: the block, which stays,
//! and the blinker, which turns.

use crate::cell::Cell;
use crate::grid::{lemma_index_in_range, lemma_position_of_index, lemma_wrap, Grid};
use crate::laws::lemma_tick_cell;
use vstd::prelude::*;

verus! {

impl Grid {
    /// The live cells are exactly the four of the two-by-two block whose upper
    /// left cell is at `(top, left)`. The block may run over an edge. The grid
    /// has at least three rows and three columns, so that no cell meets the
    /// block twice.
    pub open spec fn is_block(self, top: int, left: int) -> bool {
        &&& self.wf()
        &&& self.width >= 3
        &&& self.height >= 3
        &&& self.in_bounds(top, left)
        &&& forall|row: int, col: int|
            self.in_bounds(row, col) ==> ((#[trigger] self.cell(row, col)) == Cell::Alive <==> (row
                == top || row == (top + 1) % (self.height as int)) && (col == left || col == (left
                + 1) % (self.width as int)))
    }

    /// The live cells are exactly three in a row: the cell at `(row, col)` and
    /// its neighbours to the left and to the right, around the edge if need be.
    /// The grid has at least four rows and four columns, so that the two ends
    /// do not meet.
    pub open spec fn is_blinker_lying(self, row: int, col: int) -> bool {
        &&& self.wf()
        &&& self.width >= 4
        &&& self.height >= 4
        &&& self.in_bounds(row, col)
        &&& forall|r: int, c: int|
            self.in_bounds(r, c) ==> ((#[trigger] self.cell(r, c)) == Cell::Alive <==> r == row
                && (c == (col - 1) % (self.width as int) || c == col || c == (col + 1) % (
                self.width as int)))
    }

    /// The live cells are exactly three in a column: the cell at `(row, col)`
    /// and its neighbours above and below, around the edge if need be. The
    /// grid has at least four rows and four columns.
    pub open spec fn is_blinker_standing(self, row: int, col: int) -> bool {
        &&& self.wf()
        &&& self.width >= 4
        &&& self.height >= 4
        &&& self.in_bounds(row, col)
        &&& forall|r: int, c: int|
            self.in_bounds(r, c) ==> ((#[trigger] self.cell(r, c)) == Cell::Alive <==> c == col
                && (r == (row - 1) % (self.height as int) || r == row || r == (row + 1) % (
                self.height as int)))
    }

    /// The only live cell is the one at `(row, col)`. The grid has at least
    /// two rows and two columns, so that the cell is not its own neighbour.
    pub open spec fn is_lone_cell(self, row: int, col: int) -> bool {
        &&& self.wf()
        &&& self.width >= 2
        &&& self.height >= 2
        &&& self.in_bounds(row, col)
        &&& forall|r: int, c: int|
            self.in_bounds(r, c) ==> ((#[trigger] self.cell(r, c)) == Cell::Alive <==> r == row
                && c == col)
    }

    /// The grid after `count` ticks.
    pub open spec fn ticks(self, count: nat) -> Grid
        decreases count,
    {
        if count == 0 {
            self
        } else {
            self.tick().ticks((count - 1) as nat)
        }
    }
}

/// Two grids of the same shape that agree at every position are the same grid.
pub proof fn lemma_same_cells_same_grid(a: Grid, b: Grid)
    requires
        a.wf(),
        b.wf(),
        a.width == b.width,
        a.height == b.height,
        forall|row: int, col: int| a.in_bounds(row, col) ==> a.cell(row, col) == b.cell(row, col),
    ensures
        a == b,
{
    assert forall|i: int| 0 <= i < a.cells.len() implies a.cells[i] == b.cells[i] by {
        lemma_position_of_index(a.width as int, a.height as int, i);
        let row = i / (a.width as int);
        let col = i % (a.width as int);
        assert(a.cell(row, col) == b.cell(row, col));
    }
    assert(a.cells =~= b.cells);
}

/// The eight neighbours of a position inside the grid, named without
/// remainders: the row above the first row is the last one, and so on.
pub proof fn lemma_neighbors_on_the_torus(grid: Grid, row: int, col: int)
    requires
        grid.wf(),
        grid.in_bounds(row, col),
    ensures
        ({
            let north = if row == 0 {
                grid.height - 1
            } else {
                row - 1
            };
            let south = if row + 1 == grid.height {
                0
            } else {
                row + 1
            };
            let west = if col == 0 {
                grid.width - 1
            } else {
                col - 1
            };
            let east = if col + 1 == grid.width {
                0
            } else {
                col + 1
            };
            &&& grid.wrapped(row - 1, col - 1) == grid.cell(north, west)
            &&& grid.wrapped(row - 1, col) == grid.cell(north, col)
            &&& grid.wrapped(row - 1, col + 1) == grid.cell(north, east)
            &&& grid.wrapped(row, col - 1) == grid.cell(row, west)
            &&& grid.wrapped(row, col + 1) == grid.cell(row, east)
            &&& grid.wrapped(row + 1, col - 1) == grid.cell(south, west)
            &&& grid.wrapped(row + 1, col) == grid.cell(south, col)
            &&& grid.wrapped(row + 1, col + 1) == grid.cell(south, east)
            &&& grid.in_bounds(north, west)
            &&& grid.in_bounds(south, east)
        }),
{
    lemma_wrap(grid.height as int, row);
    lemma_wrap(grid.width as int, col);
}

/// A block is a still life: a tick leaves it as it is.
pub proof fn lemma_block_is_stable(grid: Grid, top: int, left: int)
    requires
        grid.is_block(top, left),
    ensures
        grid.tick() == grid,
{
    assert forall|row: int, col: int| grid.in_bounds(row, col) implies grid.tick().cell(row, col)
        == grid.cell(row, col) by {
        lemma_tick_cell(grid, row, col);
        lemma_neighbors_on_the_torus(grid, row, col);
        lemma_wrap(grid.height as int, top);
        lemma_wrap(grid.width as int, left);
    }
    lemma_same_cells_same_grid(grid.tick(), grid);
}

/// A block stays as it is under any number of ticks.
pub proof fn lemma_block_stays(grid: Grid, top: int, left: int, count: nat)
    requires
        grid.is_block(top, left),
    ensures
        grid.ticks(count) == grid,
    decreases count,
{
    if count > 0 {
        lemma_block_is_stable(grid, top, left);
        lemma_block_stays(grid, top, left, (count - 1) as nat);
    }
}

/// A live cell that is alone in the grid has no live neighbour, and the tick
/// that kills it brings nothing to life: the grid is empty afterwards.
pub proof fn lemma_lone_cell_leaves_nothing(grid: Grid, row: int, col: int)
    requires
        grid.is_lone_cell(row, col),
    ensures
        grid.live_neighbors(row, col) == 0,
        grid.tick().cell(row, col) == Cell::Dead,
        grid.tick() == grid.cleared(),
{
    lemma_neighbors_on_the_torus(grid, row, col);
    lemma_tick_cell(grid, row, col);
    let next = grid.tick();
    let empty = grid.cleared();
    assert forall|r: int, c: int| next.in_bounds(r, c) implies next.cell(r, c) == empty.cell(
        r,
        c,
    ) by {
        lemma_tick_cell(grid, r, c);
        lemma_neighbors_on_the_torus(grid, r, c);
        lemma_index_in_range(grid.width as int, grid.height as int, r, c);
    }
    lemma_same_cells_same_grid(next, empty);
}

/// A tick turns a lying blinker into a standing one around the same cell.
pub proof fn lemma_lying_blinker_stands_up(grid: Grid, row: int, col: int)
    requires
        grid.is_blinker_lying(row, col),
    ensures
        grid.tick().is_blinker_standing(row, col),
{
    let next = grid.tick();
    lemma_wrap(grid.height as int, row);
    lemma_wrap(grid.width as int, col);
    assert forall|r: int, c: int| next.in_bounds(r, c) implies ((#[trigger] next.cell(r, c))
        == Cell::Alive <==> c == col && (r == (row - 1) % (next.height as int) || r == row || r
        == (row + 1) % (next.height as int))) by {
        lemma_tick_cell(grid, r, c);
        lemma_neighbors_on_the_torus(grid, r, c);
    }
}

/// A tick turns a standing blinker into a lying one around the same cell.
pub proof fn lemma_standing_blinker_lies_down(grid: Grid, row: int, col: int)
    requires
        grid.is_blinker_standing(row, col),
    ensures
        grid.tick().is_blinker_lying(row, col),
{
    let next = grid.tick();
    lemma_wrap(grid.height as int, row);
    lemma_wrap(grid.width as int, col);
    assert forall|r: int, c: int| next.in_bounds(r, c) implies ((#[trigger] next.cell(r, c))
        == Cell::Alive <==> r == row && (c == (col - 1) % (next.width as int) || c == col || c
        == (col + 1) % (next.width as int))) by {
        lemma_tick_cell(grid, r, c);
        lemma_neighbors_on_the_torus(grid, r, c);
    }
}

/// A blinker oscillates with period two: one tick changes it, two ticks give
/// it back.
pub proof fn lemma_blinker_has_period_two(grid: Grid, row: int, col: int)
    requires
        grid.is_blinker_lying(row, col) || grid.is_blinker_standing(row, col),
    ensures
        grid.tick() != grid,
        grid.tick().tick() == grid,
        grid.ticks(2) == grid,
{
    let once = grid.tick();
    let twice = once.tick();
    lemma_wrap(grid.height as int, row);
    lemma_wrap(grid.width as int, col);
    if grid.is_blinker_lying(row, col) {
        lemma_lying_blinker_stands_up(grid, row, col);
        lemma_standing_blinker_lies_down(once, row, col);
        let end = (col + 1) % (grid.width as int);
        assert(grid.cell(row, end) == Cell::Alive);
        assert(once.cell(row, end) == Cell::Dead);
    } else {
        lemma_standing_blinker_lies_down(grid, row, col);
        lemma_lying_blinker_stands_up(once, row, col);
        let end = (row + 1) % (grid.height as int);
        assert(grid.cell(end, col) == Cell::Alive);
        assert(once.cell(end, col) == Cell::Dead);
    }
    assert forall|r: int, c: int| twice.in_bounds(r, c) implies twice.cell(r, c) == grid.cell(
        r,
        c,
    ) by {}
    lemma_same_cells_same_grid(twice, grid);
    reveal_with_fuel(Grid::ticks, 3);
}

} // verus!
