[package]
name = "io_maildir"
version = "0.1.0"
edition = "2021"
publish = false

[dependencies]
log = "0.4"
mail-parser = "0.11"
thiserror = "2"
