[package]
name = "qtable"
version = "0.1.0"
edition = "2021"
publish = false

[dependencies]
rand = "=0.9.5"
serde = { version = "=1.0.229", features = ["derive"] }
serde_json = { version = "=1.0.154", features = ["float_roundtrip"] }
