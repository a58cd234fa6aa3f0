//! Conway's Game of Life on a finite rectangular grid, with machine-checked
//! contracts for construction, mutation, resizing and generation stepping.

pub mod control;
pub mod game;
pub mod pattern;
