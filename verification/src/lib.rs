//! A verified core for a single-player word-guessing (hangman) game.
//!
//! The library holds the game's state machine: difficulty selection, the
//! per-guess turn logic with its alphabet bookkeeping, word selection from a
//! loaded list, word masking for display, and the fixed drawing order of the
//! hanged figure. Rendering, input polling and file loading live outside the
//! library and talk to it through plain values.

pub mod difficulty;
pub mod figure;
pub mod game;
pub mod words;
