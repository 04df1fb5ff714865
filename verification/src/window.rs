//! Keyboard and scroll input.

pub mod input;
