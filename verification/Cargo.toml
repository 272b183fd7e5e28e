[package]
name = "moly_kit"
version = "0.1.0"
edition = "2021"
publish = false

[dependencies]
futures = "=0.3.34"
tokio = { version = "=1.54.1", features = ["rt-multi-thread"] }
async-stream = "=0.3.6"
serde = { version = "=1.0.229", features = ["derive"] }
serde_json = "=1.0.154"
log = "=0.4.35"
base64 = "=0.22.1"
chrono = { version = "=0.4.45", default-features = false, features = ["clock", "std"] }
reqwest = { version = "=0.12.28", default-features = false, features = ["json", "stream"] }
tokio-tungstenite = "0.24"
