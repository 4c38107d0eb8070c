//! Simulation core of a snake game played on a wrap-around grid.
//!
//! The crate owns the board, advances the snake by one cell per tick, detects
//! food and self-collision, and hands the host a read-only view of the cells.
//! Every transition is specified against the mathematical model in [`world`]
//! and proved to follow it.

pub mod grid;
pub mod world;
pub mod preserve;
pub mod universe;
pub mod laws;

pub use grid::{Cell, Cord, Direction};
pub use universe::Universe;
