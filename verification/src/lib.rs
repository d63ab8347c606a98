//! The front end of a compiler for a dependently typed language, and the
//! keyboard of the machine it runs on.
//!
//! [`syntax`] turns the bytes of a source file into tokens and tokens
//! into the tree of a type expression, and keeps track of where in the
//! source each of them stands. [`module`] holds the identities that names
//! resolve to, and [`elaboration`] the core terms built on them.
//! [`tty`] decodes what the keyboard sends.

pub mod elaboration;
pub mod module;
pub mod syntax;
pub mod tty;
