//! The cell, the rule that decides its fate, and the draw that decides a
//! random one.

use vstd::prelude::*;

verus! {

/// A random cell is decided by a number drawn from `0..DRAW_BOUND`.
pub const DRAW_BOUND: u32 = 10;

/// A random cell is alive when the number drawn for it is above this.
pub const ALIVE_ABOVE: u32 = 3;

/// One position of the grid: dead or alive, nothing else.
#[derive(Clone, Copy, Debug, PartialEq, Eq, Structural)]
pub enum Cell {
    Dead,
    Alive,
}

impl Cell {
    /// The other state.
    pub open spec fn flipped(self) -> Cell {
        match self {
            Cell::Dead => Cell::Alive,
            Cell::Alive => Cell::Dead,
        }
    }

    /// Flips the cell in place.
    pub fn toggle(&mut self)
        ensures
            *final(self) == old(self).flipped(),
    {
        *self = match *self {
            Cell::Dead => Cell::Alive,
            Cell::Alive => Cell::Dead,
        };
    }
}

/// Conway's rule: the state of a cell in the next generation, given its state
/// and the number of its live neighbours in this one.
pub open spec fn rule(cell: Cell, live_neighbors: nat) -> Cell {
    match cell {
        Cell::Alive => if live_neighbors == 2 || live_neighbors == 3 {
            Cell::Alive
        } else {
            Cell::Dead
        },
        Cell::Dead => if live_neighbors == 3 {
            Cell::Alive
        } else {
            Cell::Dead
        },
    }
}

/// The cell that a drawn number stands for.
pub open spec fn cell_of_draw(draw: int) -> Cell {
    if draw > ALIVE_ABOVE {
        Cell::Alive
    } else {
        Cell::Dead
    }
}

/// Turns a drawn number into a cell: alive when the number is above
/// `ALIVE_ABOVE`, dead when it is not.
pub fn cell_from_draw(draw: u32) -> (cell: Cell)
    ensures
        cell == cell_of_draw(draw as int),
{
    if draw > ALIVE_ABOVE {
        Cell::Alive
    } else {
        Cell::Dead
    }
}

/// The state that the rule gives a cell with that many live neighbours.
pub fn next_state(cell: Cell, live_neighbors: u8) -> (next: Cell)
    ensures
        next == rule(cell, live_neighbors as nat),
{
    match (cell, live_neighbors) {
        // Any live cell with fewer than two live neighbours dies, as if
        // caused by underpopulation.
        (Cell::Alive, x) if x < 2 => Cell::Dead,
        // Any live cell with two or three live neighbours lives on to the
        // next generation.
        (Cell::Alive, 2) | (Cell::Alive, 3) => Cell::Alive,
        // Any live cell with more than three live neighbours dies, as if by
        // overpopulation.
        (Cell::Alive, x) if x > 3 => Cell::Dead,
        // Any dead cell with exactly three live neighbours becomes a live
        // cell, as if by reproduction.
        (Cell::Dead, 3) => Cell::Alive,
        // All other cells remain in the same state.
        (otherwise, _) => otherwise,
    }
}

} // verus!
