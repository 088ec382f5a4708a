[package]
name = "cetane"
version = "0.1.0"
edition = "2021"
publish = false

[dependencies]
sea-query = "*"
rusqlite = { version = "*", features = ["bundled"] }
