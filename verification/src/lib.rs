//! Tools for composing and checking Conventional Commits messages.
//!
//! A commit record is built field by field from interactive input, turned
//! into a canonical message string, and that string is what a commit-msg
//! gate later checks against the same grammar.

pub mod grammar;
pub mod laws;
pub mod message;
pub mod record;
pub mod text;
