//! The rules of Snake on a rectangular grid, with machine-checked contracts.
//!
//! `model` describes the game as a mathematical state machine and `laws`
//! proves what holds of every run of that machine. `snake`, `food` and
//! `game` hold the executable simulation, whose contracts are stated over
//! the model.
pub mod direction;
pub mod food;
pub mod game;
pub mod grid;
pub mod laws;
pub mod model;
pub mod snake;

pub use direction::{Direction, Key};
pub use food::Food;
pub use game::Game;
pub use snake::Snake;
