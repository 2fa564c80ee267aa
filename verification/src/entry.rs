//! Maildir entries.

pub mod body;
pub mod copy;
pub mod laws;
pub mod locate;
pub mod message;
pub mod move_entry;
pub mod relocation;
pub mod store;
pub mod types;
