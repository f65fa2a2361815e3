//! Simulation core of a small side-scrolling "flappy" game: a player falls
//! under gravity, flaps upward, and threads through scrolling gap obstacles.
//!
//! Fractional quantities are kept in fixed point: the player's velocity in
//! tenths of a cell per physics step, an obstacle's velocity in thousandths
//! of a cell per frame, and all timers in microseconds.

mod arith;
pub mod game;
pub mod obstacle;
pub mod player;
mod random;

pub use game::{GameMode, GameModel, Key, State};
pub use obstacle::{Obstacle, SpawnRoll};
pub use player::Player;
