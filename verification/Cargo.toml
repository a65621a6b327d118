[package]
name = "momentum_app"
version = "0.1.0"
edition = "2021"
publish = false

[dependencies]
serde = { version = "=1.0.229", features = ["derive"] }
serde_json = "=1.0.154"
base64 = "=0.22.1"
rand = "=0.8.8"
chrono = "=0.4.45"
tokio = { version = "=1.54.1", features = ["process", "io-util", "time", "sync", "rt-multi-thread", "fs", "net", "macros"] }
futures-util = { version = "=0.3.34", features = ["sink"] }
tokio-tungstenite = "=0.30.0"
reqwest = { version = "=0.12.28", default-features = false, features = ["json", "rustls-tls"] }
livesplit-core = { version = "=0.13.0", default-features = false, features = ["std"] }
cpal = "=0.18.2"
