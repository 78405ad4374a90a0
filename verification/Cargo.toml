[package]
name = "recordr"
version = "0.1.0"
edition = "2021"
publish = false

[dependencies]
hound = "*"
csv = "*"
serde = { version = "*", features = ["derive"] }
serde_json = "*"
chrono = { version = "*", features = ["serde"] }
log = "*"
env_logger = "*"
crossbeam-channel = "*"
cpal = "*"
samplerate = "*"
voice_activity_detector = "*"
