[package]
name = "tts_tool"
version = "0.1.0"
edition = "2021"
publish = false

[dependencies]
sha2 = "0.10"
serde = { version = "1", features = ["derive"] }
thiserror = "2"
hound = "3"
tempfile = "3"
ffmpeg-sidecar = "2"
reqwest = { version = "0.12", default-features = false, features = ["stream", "rustls-tls"] }
futures-util = "0.3"
whisper-rs = "0.14"
