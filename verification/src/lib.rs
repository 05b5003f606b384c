//! A verified Game of Life engine on a fixed-size toroidal grid.
//!
//! The grid is a dense row-major sequence of two-state cells. Neighbor
//! arithmetic wraps around both edges, so every cell has exactly eight
//! neighbors. A single step (`tick`) replaces the whole generation at once,
//! computed from a frozen snapshot of the current one.

pub mod cell;
pub mod laws;
pub mod universe;

pub use cell::Cell;
pub use universe::Universe;
