//! Quiz training: the rules of a terminal quiz trainer.
//!
//! Quizzes are validated from their raw YAML shape, training sessions are
//! drawn from them, and every key press moves a small state machine from one
//! screen to the next. Terminal drawing, key polling and file reading live in
//! the binary around this library.
pub mod error;
pub mod quiz;
pub mod text;
pub mod number;
pub mod perm;
pub mod input;
pub mod app;
pub mod laws;
