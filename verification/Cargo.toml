[package]
name = "zhir_models"
version = "0.1.0"
edition = "2021"
publish = false

[dependencies]
base64 = "0.22"
bytes = "1"
futures = "0.3"
reqwest = { version = "0.12", default-features = false, features = ["json", "stream"] }
serde = { version = "1", features = ["derive"] }
serde_json = { version = "1", features = ["float_roundtrip"] }
sha2 = "0.10"
tokio = { version = "1", features = ["sync", "time", "rt", "macros", "net"] }
tokio-tungstenite = "0.26"
webrtc = "0.14"
