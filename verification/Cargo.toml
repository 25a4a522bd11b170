[package]
name = "router"
version = "0.1.0"
edition = "2021"
publish = false

[dependencies]
serde = "1"
serde_derive = "1"
serde_json = "1"
slog = "2"
slog-json = "2"
