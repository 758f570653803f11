[package]
name = "twitch_tts"
version = "0.1.0"
edition = "2021"
publish = false

[dependencies]
rust-logger = "*"
serde = { version = "=1.0.229", features = ["derive"] }
serde_json = "=1.0.154"
