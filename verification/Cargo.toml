[package]
name = "audio_wrench"
version = "0.1.0"
edition = "2021"
publish = false

[dependencies]
url = "2"
playlist-decoder = "*"
rand = "0.8"
rodio = "0.17"
serde = { version = "1", features = ["derive"] }
serde_json = "1"
dirs = "5"
log = "0.4"
env_logger = "0.10"
trash = "3"
