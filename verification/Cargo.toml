[package]
name = "media_bridge"
version = "0.1.0"
edition = "2021"
publish = false

[dependencies]
audio-codec = "*"
rustrtc = "*"
opus = "0.3"
sha2 = "0.10"
hex = "0.4"
anyhow = "1"
async-trait = "0.1"
bytes = "1"
dashmap = "6"
futures = "0.3"
minimp3 = "0.5"
nnnoiseless = { version = "0.5", default-features = false }
once_cell = "1"
parking_lot = "0.12"
rand = "0.9"
reqwest = { version = "0.12", default-features = false }
rubato = "0.16"
serde = { version = "1", features = ["derive"] }
serde_json = "1"
tokio = { version = "1", features = ["full"] }
tokio-tungstenite = "0.26"
tokio-util = "0.7"
tracing = "0.1"
url = "2"
uuid = { version = "1", features = ["v4"] }
