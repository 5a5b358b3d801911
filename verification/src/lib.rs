//! Snake on a fixed board of 20 by 20 cells: the rules of the game, with
//! nothing in them that needs a terminal.
//!
//! A [`game::Game`] owns the state of a run. Input events, ticks and meals
//! change it; [`game::Game::step`] plays one whole round of the game loop, and
//! [`game::Game::render`] lays out the frame that shows it. What each of them
//! does is stated over [`state::GameState`], the state as plain mathematical
//! values.

pub mod board;
mod chance;
pub mod direction;
pub mod error;
pub mod game;
pub mod input;
pub mod scene;
pub mod state;
