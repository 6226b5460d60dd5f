//! A single-player word-guessing game ("Hangman"): the game state machine, the
//! views derived from it, and the small amount of text handling around it.
//!
//! The state of a game is modelled by [`game::GameModel`]; every operation of
//! [`game::HangmanGame`] is specified as a function on that model.

pub mod alphabet;
pub mod board;
pub mod game;
pub mod laws;
pub mod screen;
pub mod text;
pub mod words;
