//! Conway's Game of Life on a fixed-size grid with bounded (non-wrapping)
//! edges, together with a differential terminal renderer that maps each
//! generation to a sequence of terminal operations.

pub mod driver;
pub mod engine;
pub mod grid;
pub mod render;
