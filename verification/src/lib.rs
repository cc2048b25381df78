//! Engine of a timed typing-speed exercise.
//!
//! A session shows a shuffled stream of words, counts the words typed
//! correctly inside a fixed time window and reports a words-per-minute score.
//! This crate holds the rules of that exercise: the word queue, the input
//! matcher, the session clock, the score calculator, the format of the stored
//! best score and the controller that ties them into one state machine.
//! Drawing the screen and reading the keyboard are left to the caller, which
//! feeds the controller with events and paints the snapshots it hands out.

pub mod buffer;
pub mod clock;
pub mod controller;
pub mod matcher;
pub mod queue;
pub mod score;
pub mod session;
pub mod shuffle;
pub mod store;
pub mod text;
