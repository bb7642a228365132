//! Core logic of a fixed-grid terminal arcade game: a frame buffer rebuilt
//! every tick, a timer-driven enemy formation, the player's projectile
//! subsystem, a diff-based list of paint operations for the renderer, and the
//! per-tick orchestration that connects them.
//!
//! Terminal handling, audio playback, input polling and the render thread are
//! external collaborators and live outside this library.
use vstd::prelude::*;

pub mod frame;
pub mod game;
pub mod invaders;
pub mod player;
pub mod render;
pub mod timer;

verus! {

/// Number of columns of the playing field.
pub const NUM_COLS: usize = 40;

/// Number of rows of the playing field.
pub const NUM_ROWS: usize = 20;

} // verus!
