//! A lazily generated, unbounded 2D tile world for a terminal walking game,
//! together with the verified decision logic of its input and render loops.
//!
//! The world is a sparse mapping from coordinates to cells, populated on
//! first access from a random draw and never regenerated. A cell's terrain
//! is fixed at generation time; its content can be assigned exactly once.
//! The render side recomputes a viewport string centered on the player and
//! decides whether the terminal must be redrawn; the input side maps key
//! presses to discrete commands. Terminal I/O itself lives outside this
//! library.

pub mod board;
pub mod cell;
pub mod game;
pub mod laws;
pub mod style;
