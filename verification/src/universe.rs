//! The universe: the grid of cells as it is held in memory, and the operations
//! that create, read and change it.

use crate::cell::{cell_from_draw, next_state, Cell, DRAW_BOUND};
use crate::grid::{
    column_major_before, lemma_index_in_range, lemma_index_splits, lemma_position_of_index,
    lemma_wrap, Grid,
};
use crate::random::draw_below;
use vstd::prelude::*;

verus! {

/// Number of cells in a row of the standard universe.
pub const CELLS_PER_ROW: u32 = 64;

/// Number of cells in a column of the standard universe.
pub const CELLS_PER_COL: u32 = 64;

/// Why an operation on a universe was refused. A refused operation leaves the
/// universe as it was.
#[derive(Clone, Copy, Debug, PartialEq, Eq, Structural)]
pub enum UniverseError {
    /// A dimension is zero, or the grid would have more than `u32::MAX` cells.
    InvalidDimensions,
    /// A row or column lies outside the grid.
    OutOfBounds,
}

/// Dimensions that a universe can have: both positive, and few enough cells
/// for every index to fit in a `u32`.
pub open spec fn valid_dimensions(width: int, height: int) -> bool {
    &&& width > 0
    &&& height > 0
    &&& height * width <= u32::MAX
}

/// Represents the state of all cells in the universe.
#[derive(Debug, PartialEq, Eq)]
pub struct Universe {
    width: u32,
    height: u32,
    cells: Vec<Cell>,
}

impl View for Universe {
    type V = Grid;

    closed spec fn view(&self) -> Grid {
        Grid { width: self.width as nat, height: self.height as nat, cells: self.cells@ }
    }
}

/// A vector of `count` dead cells.
fn dead_cells(count: usize) -> (cells: Vec<Cell>)
    ensures
        cells@ == Seq::new(count as nat, |i: int| Cell::Dead),
{
    let mut cells: Vec<Cell> = Vec::with_capacity(count);
    let mut i: usize = 0;
    while i < count
        invariant
            i <= count,
            cells@ == Seq::new(i as nat, |k: int| Cell::Dead),
        decreases count - i,
    {
        cells.push(Cell::Dead);
        i += 1;
    }
    cells
}

impl Universe {
    #[verifier::type_invariant]
    spec fn inv(&self) -> bool {
        self@.wf() && valid_dimensions(self.width as int, self.height as int)
    }

    /// Creates a universe of the given dimensions in which every cell is dead.
    /// Dimensions that are not valid are refused.
    pub fn new(width: u32, height: u32) -> (result: Result<Universe, UniverseError>)
        ensures
            match result {
                Ok(universe) => valid_dimensions(width as int, height as int) && universe@
                    == Grid::dead(width as nat, height as nat) && universe@.wf(),
                Err(error) => !valid_dimensions(width as int, height as int) && error
                    == UniverseError::InvalidDimensions,
            },
    {
        if width == 0 || height == 0 {
            return Err(UniverseError::InvalidDimensions);
        }
        assert(height * width <= 0xffff_ffff * 0xffff_ffff) by (nonlinear_arith)
            requires
                height <= 0xffff_ffff,
                width <= 0xffff_ffff,
        ;
        let count: u64 = (height as u64) * (width as u64);
        if count > u32::MAX as u64 {
            return Err(UniverseError::InvalidDimensions);
        }
        let cells = dead_cells(count as usize);
        Ok(Universe { width, height, cells })
    }

    /// The number of columns.
    pub fn width(&self) -> (width: u32)
        ensures
            width == self@.width,
            width > 0,
    {
        proof {
            use_type_invariant(self);
        }
        self.width
    }

    /// The number of rows.
    pub fn height(&self) -> (height: u32)
        ensures
            height == self@.height,
            height > 0,
    {
        proof {
            use_type_invariant(self);
        }
        self.height
    }

    /// All cells, row by row.
    pub fn cells(&self) -> (cells: &Vec<Cell>)
        ensures
            cells@ == self@.cells,
            cells@.len() == self@.height * self@.width,
            self@.wf(),
    {
        proof {
            use_type_invariant(self);
        }
        &self.cells
    }

    /// The dead and alive values of the entire universe, row by row.
    pub fn get_cells(&self) -> (cells: &[Cell])
        ensures
            cells@ == self@.cells,
            cells@.len() == self@.height * self@.width,
            self@.wf(),
    {
        proof {
            use_type_invariant(self);
        }
        self.cells.as_slice()
    }

    /// Sets every cell to dead.
    pub fn clear(&mut self)
        ensures
            final(self)@ == old(self)@.cleared(),
            final(self)@.wf(),
    {
        proof {
            use_type_invariant(&*self);
        }
        let count: u32 = self.height * self.width;
        self.cells = dead_cells(count as usize);
    }

    /// Return the (x, y) coordinates of all cells that are currently alive:
    /// column and row, each live cell once, column by column.
    pub fn get_living_cells(&self) -> (living: Vec<(i64, i64)>)
        ensures
            self@.living_listing(living@),
            self@.wf(),
    {
        proof {
            use_type_invariant(self);
        }
        let mut cells: Vec<(i64, i64)> = Vec::new();
        let mut col: u32 = 0;
        while col < self.width
            invariant
                self@.wf(),
                valid_dimensions(self.width as int, self.height as int),
                col <= self.width,
                forall|k: int|
                    0 <= k < cells@.len() ==> self@.is_living(
                        (#[trigger] cells@[k]).0 as int,
                        cells@[k].1 as int,
                    ) && cells@[k].0 < col,
                forall|x: int, y: int| #[trigger]
                    self@.is_living(x, y) && x < col ==> cells@.contains((x as i64, y as i64)),
                forall|j: int, k: int|
                    0 <= j < k < cells@.len() ==> column_major_before(
                        #[trigger] cells@[j],
                        #[trigger] cells@[k],
                    ),
            decreases self.width - col,
        {
            let mut row: u32 = 0;
            while row < self.height
                invariant
                    self@.wf(),
                    valid_dimensions(self.width as int, self.height as int),
                    col < self.width,
                    row <= self.height,
                    forall|k: int|
                        0 <= k < cells@.len() ==> self@.is_living(
                            (#[trigger] cells@[k]).0 as int,
                            cells@[k].1 as int,
                        ) && (cells@[k].0 < col || (cells@[k].0 == col && cells@[k].1 < row)),
                    forall|x: int, y: int| #[trigger]
                        self@.is_living(x, y) && (x < col || (x == col && y < row))
                            ==> cells@.contains((x as i64, y as i64)),
                    forall|j: int, k: int|
                        0 <= j < k < cells@.len() ==> column_major_before(
                            #[trigger] cells@[j],
                            #[trigger] cells@[k],
                        ),
                decreases self.height - row,
            {
                let idx = self.get_index(row, col);
                let cell = self.cells[idx];
                if cell == Cell::Alive {
                    let ghost listed = cells@;
                    cells.push((col as i64, row as i64));
                    proof {
                        assert(cells@[listed.len() as int] == (col as i64, row as i64));
                        assert forall|x: int, y: int| #[trigger]
                            self@.is_living(x, y) && (x < col || (x == col && y < row + 1))
                                implies cells@.contains((x as i64, y as i64)) by {
                            if x == col && y == row {
                            } else {
                                let k = listed.index_of((x as i64, y as i64));
                                assert(cells@[k] == listed[k]);
                            }
                        }
                    }
                }
                row += 1;
            }
            col += 1;
        }
        cells
    }

    /// Randomly set the value of all cells in the universe. Each cell is decided
    /// by a draw of its own from `0..DRAW_BOUND`; the dimensions stay.
    pub fn random(&mut self)
        ensures
            final(self)@.wf(),
            final(self)@.width == old(self)@.width,
            final(self)@.height == old(self)@.height,
    {
        proof {
            use_type_invariant(&*self);
        }
        let mut rng = rand::thread_rng();
        let count: u32 = self.height * self.width;
        let mut cells: Vec<Cell> = Vec::with_capacity(count as usize);
        let mut i: u32 = 0;
        while i < count
            invariant
                i <= count,
                cells@.len() == i,
            decreases count - i,
        {
            let draw = draw_below(&mut rng, DRAW_BOUND);
            cells.push(cell_from_draw(draw));
            i += 1;
        }
        self.cells = cells;
    }

    /// Set the width of the universe.
    ///
    /// Resets all cells to the dead state. A width that the height does not
    /// allow is refused.
    pub fn set_width(&mut self, width: u32) -> (result: Result<(), UniverseError>)
        ensures
            final(self)@.wf(),
            match result {
                Ok(_) => valid_dimensions(width as int, old(self)@.height as int) && final(self)@
                    == Grid::dead(width as nat, old(self)@.height),
                Err(error) => !valid_dimensions(width as int, old(self)@.height as int) && error
                    == UniverseError::InvalidDimensions && final(self)@ == old(self)@,
            },
    {
        proof {
            use_type_invariant(&*self);
        }
        match Universe::new(width, self.height) {
            Ok(universe) => {
                *self = universe;
                Ok(())
            },
            Err(error) => Err(error),
        }
    }

    /// Set the height of the universe.
    ///
    /// Resets all cells to the dead state. A height that the width does not
    /// allow is refused.
    pub fn set_height(&mut self, height: u32) -> (result: Result<(), UniverseError>)
        ensures
            final(self)@.wf(),
            match result {
                Ok(_) => valid_dimensions(old(self)@.width as int, height as int) && final(self)@
                    == Grid::dead(old(self)@.width, height as nat),
                Err(error) => !valid_dimensions(old(self)@.width as int, height as int) && error
                    == UniverseError::InvalidDimensions && final(self)@ == old(self)@,
            },
    {
        proof {
            use_type_invariant(&*self);
        }
        match Universe::new(self.width, height) {
            Ok(universe) => {
                *self = universe;
                Ok(())
            },
            Err(error) => Err(error),
        }
    }

    /// Set cells to be alive in a universe by passing the row and column
    /// of each cell as an array. If one of them lies outside the grid, the
    /// call is refused and no cell changes.
    pub fn set_cells(&mut self, cells: &[(u32, u32)]) -> (result: Result<(), UniverseError>)
        ensures
            final(self)@.wf(),
            match result {
                Ok(_) => old(self)@.holds_all(cells@) && final(self)@ == old(self)@.with_alive(
                    cells@,
                ),
                Err(error) => !old(self)@.holds_all(cells@) && error == UniverseError::OutOfBounds
                    && final(self)@ == old(self)@,
            },
    {
        proof {
            use_type_invariant(&*self);
        }
        let mut checked: usize = 0;
        while checked < cells.len()
            invariant
                *self == *old(self),
                self@.wf(),
                checked <= cells.len(),
                self@.holds_all(cells@.take(checked as int)),
            decreases cells.len() - checked,
        {
            let (row, col) = cells[checked];
            if row >= self.height || col >= self.width {
                assert(!self@.in_bounds(
                    cells@[checked as int].0 as int,
                    cells@[checked as int].1 as int,
                ));
                return Err(UniverseError::OutOfBounds);
            }
            assert forall|k: int| 0 <= k < checked + 1 implies self@.in_bounds(
                (#[trigger] cells@.take(checked + 1)[k]).0 as int,
                cells@.take(checked + 1)[k].1 as int,
            ) by {
                if k < checked {
                    assert(cells@.take(checked + 1)[k] == cells@.take(checked as int)[k]);
                }
            }
            checked += 1;
        }
        assert(cells@.take(cells@.len() as int) =~= cells@);
        let mut done: usize = 0;
        assert(self@.cells =~= old(self)@.with_alive(cells@.take(0)).cells);
        while done < cells.len()
            invariant
                self@.wf(),
                valid_dimensions(self.width as int, self.height as int),
                self.width == old(self).width,
                self.height == old(self).height,
                old(self)@.wf(),
                old(self)@.holds_all(cells@),
                done <= cells.len(),
                self@ == old(self)@.with_alive(cells@.take(done as int)),
            decreases cells.len() - done,
        {
            let (row, col) = cells[done];
            let idx = self.get_index(row, col);
            self.cells[idx] = Cell::Alive;
            proof {
                let width = self.width as int;
                let shorter = cells@.take(done as int);
                let longer = cells@.take(done + 1);
                lemma_index_splits(width, row as int, col as int);
                assert(longer[done as int] == (row, col));
                assert forall|i: int| 0 <= i < self@.cells.len() implies self@.cells[i] == old(
                    self,
                )@.with_alive(longer).cells[i] by {
                    lemma_position_of_index(width, self.height as int, i);
                    let at = ((i / width) as u32, (i % width) as u32);
                    if i == idx {
                        assert(longer.contains(at));
                    } else if shorter.contains(at) {
                        let k = shorter.index_of(at);
                        assert(longer[k] == shorter[k]);
                    } else if longer.contains(at) {
                        let k = longer.index_of(at);
                        assert(k < done ==> shorter[k] == longer[k]);
                    }
                }
                assert(self@.cells =~= old(self)@.with_alive(longer).cells);
            }
            done += 1;
        }
        assert(cells@.take(cells@.len() as int) =~= cells@);
        Ok(())
    }

    /// Toggle the state of the cell at row, column. A position outside the grid
    /// is refused.
    pub fn toggle_cell(&mut self, row: u32, column: u32) -> (result: Result<(), UniverseError>)
        ensures
            final(self)@.wf(),
            match result {
                Ok(_) => old(self)@.in_bounds(row as int, column as int) && final(self)@ == old(
                    self,
                )@.toggled(row as int, column as int),
                Err(error) => !old(self)@.in_bounds(row as int, column as int) && error
                    == UniverseError::OutOfBounds && final(self)@ == old(self)@,
            },
    {
        proof {
            use_type_invariant(&*self);
        }
        if row >= self.height || column >= self.width {
            return Err(UniverseError::OutOfBounds);
        }
        let idx = self.get_index(row, column);
        self.cells[idx].toggle();
        Ok(())
    }

    /// Advance the universe one tick.
    ///
    /// Cells die and are born depending on the neighbor count of each cell in
    /// the generation before.
    pub fn tick(&mut self)
        ensures
            final(self)@ == old(self)@.tick(),
            final(self)@.wf(),
    {
        proof {
            use_type_invariant(&*self);
        }
        let count: u32 = self.height * self.width;
        let mut next: Vec<Cell> = Vec::with_capacity(count as usize);
        let mut row: u32 = 0;
        while row < self.height
            invariant
                *self == *old(self),
                self@.wf(),
                valid_dimensions(self.width as int, self.height as int),
                row <= self.height,
                next@.len() == row * self.width,
                forall|i: int|
                    0 <= i < next@.len() ==> next@[i] == self@.next_cell(
                        i / (self.width as int),
                        i % (self.width as int),
                    ),
            decreases self.height - row,
        {
            let mut col: u32 = 0;
            while col < self.width
                invariant
                    *self == *old(self),
                    self@.wf(),
                    valid_dimensions(self.width as int, self.height as int),
                    row < self.height,
                    col <= self.width,
                    next@.len() == row * self.width + col,
                    forall|i: int|
                        0 <= i < next@.len() ==> next@[i] == self@.next_cell(
                            i / (self.width as int),
                            i % (self.width as int),
                        ),
                decreases self.width - col,
            {
                let idx = self.get_index(row, col);
                let cell = self.cells[idx];
                let live_neighbors = self.live_neighbor_count(row, col);
                let next_cell = next_state(cell, live_neighbors);
                proof {
                    lemma_index_splits(self.width as int, row as int, col as int);
                }
                next.push(next_cell);
                col += 1;
            }
            assert((row + 1) * self.width == row * self.width + self.width) by (nonlinear_arith);
            row += 1;
        }
        assert(next@ =~= old(self)@.tick().cells);
        self.cells = next;
    }

    /// 1 if the cell at row, column is alive, 0 if it is dead.
    fn live_at(&self, row: u32, column: u32) -> (live: u8)
        requires
            self@.in_bounds(row as int, column as int),
        ensures
            live == (if self@.cell(row as int, column as int) == Cell::Alive {
                1nat
            } else {
                0nat
            }),
    {
        let idx = self.get_index(row, column);
        match self.cells[idx] {
            Cell::Alive => 1,
            Cell::Dead => 0,
        }
    }

    /// Return the count of live cells around cell at row, column.
    fn live_neighbor_count(&self, row: u32, column: u32) -> (count: u8)
        requires
            self@.in_bounds(row as int, column as int),
        ensures
            count == self@.live_neighbors(row as int, column as int),
            count <= 8,
    {
        proof {
            use_type_invariant(self);
            lemma_wrap(self.height as int, row as int);
            lemma_wrap(self.width as int, column as int);
        }
        let north = wrap(row, self.height - 1, self.height);
        let south = wrap(row, 1, self.height);
        let west = wrap(column, self.width - 1, self.width);
        let east = wrap(column, 1, self.width);
        self.live_at(north, west) + self.live_at(north, column) + self.live_at(north, east)
            + self.live_at(row, west) + self.live_at(row, east) + self.live_at(south, west)
            + self.live_at(south, column) + self.live_at(south, east)
    }

    /// Return the index of the cell at row, column.
    fn get_index(&self, row: u32, col: u32) -> (index: usize)
        requires
            self@.in_bounds(row as int, col as int),
        ensures
            index == self@.index_of(row as int, col as int),
            index < self@.cells.len(),
    {
        proof {
            use_type_invariant(self);
            lemma_index_in_range(self.width as int, self.height as int, row as int, col as int);
        }
        (row * self.width + col) as usize
    }
}

/// The coordinate that lies `delta` steps after `at` on a ring of `extent`
/// positions.
fn wrap(at: u32, delta: u32, extent: u32) -> (wrapped: u32)
    requires
        extent > 0,
    ensures
        wrapped == (at + delta) % (extent as int),
        wrapped < extent,
{
    ((at as u64 + delta as u64) % (extent as u64)) as u32
}

impl Default for Universe {
    /// The standard universe: 64 by 64 cells, all dead.
    fn default() -> (universe: Universe)
        ensures
            universe@ == Grid::dead(CELLS_PER_ROW as nat, CELLS_PER_COL as nat),
            universe@.wf(),
    {
        let count: u32 = CELLS_PER_COL * CELLS_PER_ROW;
        let cells = dead_cells(count as usize);
        Universe { width: CELLS_PER_ROW, height: CELLS_PER_COL, cells }
    }
}

} // verus!
