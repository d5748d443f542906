//! Core of a terminal number-guessing game.
//!
//! The library owns all application state and logic: a two-mode focus state
//! (navigation vs. text editing), an editable input buffer with cursor
//! semantics, decimal parsing and formatting of guesses, and the feedback
//! loop that updates cumulative statistics and a series of signed deviations.
//! Rendering and terminal input live outside the library and interact with it
//! only through plain values.

pub mod digits;
pub mod dispatch;
pub mod parse;
pub mod state;
