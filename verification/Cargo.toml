[package]
name = "asyncpush"
version = "0.1.0"
edition = "2021"
publish = false

[dependencies]
anyhow = "1"
crossbeam-channel = "0.5"
crossterm = "0.17"
git2 = { version = "0.13", default-features = false }
log = "0.4"
tui = { version = "0.10", default-features = false, features = ["crossterm"] }
