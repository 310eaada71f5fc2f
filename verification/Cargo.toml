[package]
name = "techmino_replay_toolkit"
version = "0.1.0"
edition = "2021"
publish = false

[dependencies]
base64 = "0.22"
miniz_oxide = "0.8"
semver = "1"
serde = { version = "1", features = ["derive"] }
serde_json = "1"
