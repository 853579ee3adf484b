[package]
name = "ora_core"
version = "0.1.0"
edition = "2021"
publish = false

[dependencies]
dirs = "*"
notify = "*"
rusqlite = { version = "*", features = ["bundled"] }
tempfile = "*"
thiserror = "*"
