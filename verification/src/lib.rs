//! Conway's Game of Life simulation engine for a full-screen terminal
//! screensaver.
//!
//! The library owns the grid data model, the generation-update rule under a
//! selectable boundary policy (toroidal wraparound or clamped edges), and the
//! mapping of simulation state onto a rectangular display region. Terminal
//! setup, input polling and frame scheduling are left to the surrounding
//! program.

pub mod life;
pub mod render;
mod rng;
pub mod rules;
pub mod text;
