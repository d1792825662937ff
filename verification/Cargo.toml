[package]
name = "whisper_app"
version = "0.1.0"
edition = "2021"
publish = false

[dependencies]
uuid = { version = "1", features = ["v4"] }
chrono = "0.4"
whisper-rs = "0.15"
iced = { version = "0.14", default-features = false, features = ["tiny-skia", "tokio", "x11"] }
cpal = "0.15"
ringbuffer = "0.15"
crossbeam-channel = "0.5"
serde = { version = "1", features = ["derive"] }
serde_json = "1"
tokio = { version = "1", features = ["rt-multi-thread"] }
reqwest = { version = "0.12", default-features = false, features = ["stream"] }
futures-lite = "2"
thiserror = "2"
log = "0.4"
async-trait = "0.1"
