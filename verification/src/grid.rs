//! The mathematical model of the universe: a torus of cells in row-major order,
//! and what one generation does to it.

use crate::cell::{rule, Cell};
use vstd::prelude::*;

verus! {

/// A rectangle of `height` rows of `width` cells each. The cell at `(row, col)`
/// is stored at `row * width + col`.
pub struct Grid {
    pub width: nat,
    pub height: nat,
    pub cells: Seq<Cell>,
}

impl Grid {
    /// Both dimensions are positive and there is exactly one cell per position.
    pub open spec fn wf(self) -> bool {
        &&& self.width > 0
        &&& self.height > 0
        &&& self.cells.len() == self.height * self.width
    }

    /// The grid of the given dimensions in which every cell is dead.
    pub open spec fn dead(width: nat, height: nat) -> Grid {
        Grid { width, height, cells: Seq::new(height * width, |i: int| Cell::Dead) }
    }

    /// `(row, col)` is a position inside the grid.
    pub open spec fn in_bounds(self, row: int, col: int) -> bool {
        0 <= row < self.height && 0 <= col < self.width
    }

    /// Where the cell at `(row, col)` stands in the cell sequence.
    pub open spec fn index_of(self, row: int, col: int) -> int {
        row * self.width + col
    }

    /// The cell at a position inside the grid.
    pub open spec fn cell(self, row: int, col: int) -> Cell {
        self.cells[self.index_of(row, col)]
    }

    /// The cell at any position of the plane, the grid being wrapped around in
    /// both directions.
    pub open spec fn wrapped(self, row: int, col: int) -> Cell {
        self.cell(row % (self.height as int), col % (self.width as int))
    }

    /// 1 if the cell at the wrapped position is alive, 0 if not.
    pub open spec fn live(self, row: int, col: int) -> nat {
        if self.wrapped(row, col) == Cell::Alive {
            1
        } else {
            0
        }
    }

    /// How many of the eight positions around `(row, col)` hold a live cell.
    pub open spec fn live_neighbors(self, row: int, col: int) -> nat {
        self.live(row - 1, col - 1) + self.live(row - 1, col) + self.live(row - 1, col + 1)
            + self.live(row, col - 1) + self.live(row, col + 1)
            + self.live(row + 1, col - 1) + self.live(row + 1, col) + self.live(row + 1, col + 1)
    }

    /// The state of the cell at `(row, col)` one generation later.
    pub open spec fn next_cell(self, row: int, col: int) -> Cell {
        rule(self.cell(row, col), self.live_neighbors(row, col))
    }

    /// The next generation: every cell follows the rule at once, each reading
    /// this generation only.
    pub open spec fn tick(self) -> Grid {
        Grid {
            width: self.width,
            height: self.height,
            cells: Seq::new(
                self.cells.len(),
                |i: int| self.next_cell(i / (self.width as int), i % (self.width as int)),
            ),
        }
    }

    /// The same grid with every cell dead.
    pub open spec fn cleared(self) -> Grid {
        Grid::dead(self.width, self.height)
    }

    /// The same grid with the cell at `(row, col)` flipped.
    pub open spec fn toggled(self, row: int, col: int) -> Grid {
        Grid {
            width: self.width,
            height: self.height,
            cells: self.cells.update(self.index_of(row, col), self.cell(row, col).flipped()),
        }
    }

    /// Every `(row, column)` pair of `positions` lies inside the grid.
    pub open spec fn holds_all(self, positions: Seq<(u32, u32)>) -> bool {
        forall|k: int|
            0 <= k < positions.len() ==> self.in_bounds(
                (#[trigger] positions[k]).0 as int,
                positions[k].1 as int,
            )
    }

    /// The same grid with the cell at each `(row, column)` pair of `positions`
    /// alive.
    pub open spec fn with_alive(self, positions: Seq<(u32, u32)>) -> Grid {
        Grid {
            width: self.width,
            height: self.height,
            cells: Seq::new(
                self.cells.len(),
                |i: int|
                    if positions.contains(
                        ((i / (self.width as int)) as u32, (i % (self.width as int)) as u32),
                    ) {
                        Cell::Alive
                    } else {
                        self.cells[i]
                    },
            ),
        }
    }

    /// No cell is alive.
    pub open spec fn all_dead(self) -> bool {
        forall|i: int| 0 <= i < self.cells.len() ==> self.cells[i] == Cell::Dead
    }

    /// `(x, y)` names a live cell: column `x`, row `y`.
    pub open spec fn is_living(self, x: int, y: int) -> bool {
        self.in_bounds(y, x) && self.cell(y, x) == Cell::Alive
    }

    /// `listing` names every live cell exactly once, as `(column, row)`, column
    /// by column and top to bottom within a column.
    pub open spec fn living_listing(self, listing: Seq<(i64, i64)>) -> bool {
        &&& forall|k: int|
            0 <= k < listing.len() ==> self.is_living(
                (#[trigger] listing[k]).0 as int,
                listing[k].1 as int,
            )
        &&& forall|x: int, y: int| #[trigger]
            self.is_living(x, y) ==> listing.contains((x as i64, y as i64))
        &&& forall|j: int, k: int|
            0 <= j < k < listing.len() ==> column_major_before(
                #[trigger] listing[j],
                #[trigger] listing[k],
            )
    }
}

/// `a` comes strictly before `b` when positions are read column by column.
pub open spec fn column_major_before(a: (i64, i64), b: (i64, i64)) -> bool {
    a.0 < b.0 || (a.0 == b.0 && a.1 < b.1)
}

/// A position inside a grid has its index inside the cell sequence.
pub proof fn lemma_index_in_range(width: int, height: int, row: int, col: int)
    by (nonlinear_arith)
    requires
        0 <= row < height,
        0 <= col < width,
    ensures
        0 <= row * width + col < height * width,
{
}

/// Row and column are recovered from an index by division and remainder.
pub proof fn lemma_index_splits(width: int, row: int, col: int)
    requires
        0 <= col < width,
    ensures
        (row * width + col) / width == row,
        (row * width + col) % width == col,
{
    vstd::arithmetic::div_mod::lemma_fundamental_div_mod_converse(
        row * width + col,
        width,
        row,
        col,
    );
}

/// Every index of the cell sequence is the index of a position inside the grid.
pub proof fn lemma_position_of_index(width: int, height: int, i: int)
    requires
        0 < width,
        0 <= i < height * width,
    ensures
        0 <= i / width < height,
        0 <= i % width < width,
        (i / width) * width + i % width == i,
{
    vstd::arithmetic::div_mod::lemma_fundamental_div_mod(i, width);
    vstd::arithmetic::div_mod::lemma_mod_bound(i, width);
    let q = i / width;
    assert(width * q == q * width) by (nonlinear_arith);
    assert(0 <= q < height) by (nonlinear_arith)
        requires
            0 < width,
            0 <= i < height * width,
            i == q * width + i % width,
            0 <= i % width < width,
    ;
}

/// Stepping off one edge of the torus lands on the opposite edge.
pub proof fn lemma_wrap(extent: int, at: int)
    requires
        0 <= at < extent,
    ensures
        at % extent == at,
        (at - 1) % extent == (if at == 0 {
            extent - 1
        } else {
            at - 1
        }),
        (at + 1) % extent == (if at + 1 == extent {
            0
        } else {
            at + 1
        }),
        (at + (extent - 1)) % extent == (at - 1) % extent,
{
    vstd::arithmetic::div_mod::lemma_fundamental_div_mod_converse(at, extent, 0, at);
    if at == 0 {
        vstd::arithmetic::div_mod::lemma_fundamental_div_mod_converse(
            at - 1,
            extent,
            -1,
            extent - 1,
        );
        vstd::arithmetic::div_mod::lemma_fundamental_div_mod_converse(
            at + (extent - 1),
            extent,
            0,
            extent - 1,
        );
    } else {
        vstd::arithmetic::div_mod::lemma_fundamental_div_mod_converse(at - 1, extent, 0, at - 1);
        vstd::arithmetic::div_mod::lemma_fundamental_div_mod_converse(
            at + (extent - 1),
            extent,
            1,
            at - 1,
        );
    }
    if at + 1 == extent {
        vstd::arithmetic::div_mod::lemma_fundamental_div_mod_converse(at + 1, extent, 1, 0);
    } else {
        vstd::arithmetic::div_mod::lemma_fundamental_div_mod_converse(at + 1, extent, 0, at + 1);
    }
}

} // verus!
