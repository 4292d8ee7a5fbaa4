//! A verified core for a sliding-tile (15-puzzle) game.
//!
//! The library owns the puzzle state machine: the 4x4 grid of numbered
//! tiles and one blank, solvable shuffling, move validation and
//! application, and win detection. Rendering and input handling are left
//! to the surrounding program.

pub mod game;
pub mod grid;
pub mod moves;
pub mod parity;
pub mod shuffle;
