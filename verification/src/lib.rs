//! A toroidal Game of Life engine and the frame scheduler that drives it.

pub mod animation;
pub mod cell;
pub mod grid;
pub mod laws;
pub mod patterns;
pub mod random;
pub mod redraw;
pub mod universe;
