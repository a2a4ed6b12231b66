//! The signal that the cells have changed and have to be drawn again.

use vstd::prelude::*;

verus! {

/// Whether the cells have to be drawn again.
#[derive(Clone, Copy, Debug, PartialEq, Eq, Structural)]
pub enum Redraw {
    True,
    False,
}

impl Redraw {
    /// Whether a redraw is due.
    pub fn is_true(&self) -> (due: bool)
        ensures
            due == (*self == Redraw::True),
    {
        match self {
            Redraw::True => true,
            Redraw::False => false,
        }
    }
}

} // verus!
