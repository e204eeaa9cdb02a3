//! Fixed-tick simulation core of a grid-based snake game.
//!
//! The crate holds the game state and its rules: playfield geometry, the
//! snake and its food, the single-slot input buffer, the per-tick simulation
//! step and a fixed-timestep driver. Every function carries a contract that
//! is proved against a mathematical model of the state.

pub mod driver;
pub mod food;
pub mod grid;
pub mod input;
pub mod playfield;
pub mod sim;
pub mod snake;

pub use driver::{Driver, FrameReport, Halt, TickClock};
pub use food::{Food, SpawnError};
pub use grid::{Cell, Direction};
pub use input::{InputBuffer, Key};
pub use playfield::Playfield;
pub use sim::{GameOverReason, GameState, Simulation, TickOutcome};
pub use snake::Snake;
