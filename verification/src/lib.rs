//! Conway's Game of Life on a toroidal grid, with machine-checked contracts.
//!
//! The grid is a [`Universe`]: two equally sized bit sets (the current
//! generation and a staging buffer) and the two dimensions. Every operation
//! is specified over the mathematical model in [`model`], and proved against
//! it by Verus.

pub mod bits;
pub mod laws;
pub mod model;
pub mod universe;

pub use universe::Universe;
