[package]
name = "game_sessions"
version = "0.1.0"
edition = "2021"
publish = false

[dependencies]
rand = "0.8.5"
chrono = "0.4"
serde_json = "1"
