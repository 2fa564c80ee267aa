//! I/O-free Maildir entry coroutines: storing, copying and moving entries.

pub mod coroutine;
pub mod entry;
pub mod flag;
pub mod maildir;
pub mod path;
pub mod paths;
pub mod text;
