[package]
name = "wavepilot"
version = "0.1.0"
edition = "2021"
publish = false

[dependencies]
chrono = "0.4"
uuid = { version = "1", features = ["v4"] }
serde = { version = "1", features = ["derive"] }
serde_json = "1"
rusqlite = { version = "*", features = ["bundled"] }
hound = "3"
walkdir = "2"
log = "0.4"
env_logger = { version = "0.11", default-features = false }
