[package]
name = "lyrics_helper"
version = "0.1.0"
edition = "2021"
publish = false

[dependencies]
regex = "=1.13.1"
toml = "=1.1.8"
serde = { version = "=1.0.229", features = ["derive"] }
tracing = "=0.1.44"
