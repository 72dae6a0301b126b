//! Generate a Cargo.toml manifest from a YAML template.
//!
//! The crate holds the two pieces of the tool that carry real invariants:
//! the value mapper, which turns an in-memory YAML tree into the equivalent
//! TOML tree, and the command-line interpreter, a small state machine that
//! folds over raw argument tokens and either resolves them into options or
//! falls back to a usage message.

pub mod args;
pub mod convert;
pub mod float;
pub mod opts;
pub mod value;
