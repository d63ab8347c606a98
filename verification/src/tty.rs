//! The terminal: what comes in from the keyboard.

pub mod keyboard;
