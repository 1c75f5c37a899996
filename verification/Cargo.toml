[package]
name = "prism"
version = "0.1.0"
edition = "2021"
publish = false

[dependencies]
serde = { version = "=1.0.229", features = ["derive"] }
serde_json = "=1.0.154"
mp4 = "=0.14.0"
bytes = "=1.12.1"
image = { version = "=0.25.10", default-features = false, features = ["jpeg"] }
base64 = "=0.22.1"
dirs = "=7.0.0"
uuid = { version = "=1.29.0", features = ["v4"] }
realfft = "3"
