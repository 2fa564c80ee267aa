//! Maildirs.

pub mod types;
