[package]
name = "fuzzcheck"
version = "0.1.0"
edition = "2021"
publish = false

[dependencies]
fastrand = "1.9"
regex-syntax = "0.6"
serde = { version = "1", features = ["derive"] }
serde_json = "1"
bincode = "1"
toml = "0.5"
