//! A cellular-automaton engine for Conway's Game of Life on a fixed-size,
//! rectangular grid with clamped (non-wrapping) edges.
//!
//! The `grid` module holds the cell container and the single-cell update
//! rule; `engine` drives one full generation by partitioning the rows into
//! contiguous bands, exactly as a pool of workers would share them; `codec`
//! loads a grid from a line-oriented text description and renders it back.

pub mod codec;
pub mod engine;
pub mod grid;
pub mod store;
