//! Conway's Game of Life on a fixed-size toroidal grid.
//!
//! The crate holds the grid automaton itself: the numbering of the cells, the
//! table of each cell's eight neighbours, the two-phase advance of a generation
//! and the setup/running mode that decides which commands are taken.

pub mod board;
pub mod error;
pub mod grid;
pub mod life;
pub mod neighbours;
pub mod patterns;
pub mod state;
pub mod stepper;
