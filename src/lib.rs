//! A Game-of-Life-style cellular automaton on a fixed rectangular grid.
//!
//! The grid advances one generation at a time: every cell becomes alive
//! exactly when the number of live cells in its narrow neighbourhood (the
//! cell itself, the cell above, the cell to its left and the cell above-left)
//! is two or three. Positions outside the grid count as dead.

pub mod rule;
pub mod grid;
pub mod input;
pub mod render;

pub use grid::GridSimulation;
pub use input::KeyPress;
pub use render::{cell_extent, cell_rect, CellRect};
