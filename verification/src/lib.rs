//! Verified core of a Pac-Man game: directions, the fixed maze, the discrete
//! rules of Pac-Man and the ghosts, the game's state machine and scoring, and
//! the decoding of raw gamepad reports.

pub mod types;
pub mod maze;
pub mod entities;
pub mod game;
pub mod gamepad;
