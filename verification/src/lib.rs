//! A small project-management store: an ordered list of uniquely named
//! projects kept in memory, loaded from and saved to a one-name-per-line
//! text file.

pub mod codec;
pub mod commands;
pub mod store;
pub mod text;
