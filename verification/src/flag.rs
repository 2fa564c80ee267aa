//! Maildir flags.

pub mod types;
