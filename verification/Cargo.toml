[package]
name = "hyperliquid_ws"
version = "0.1.0"
edition = "2021"
publish = false

[dependencies]
serde = { version = "1", features = ["derive"] }
serde_json = "1"
tokio = { version = "1", features = ["rt", "rt-multi-thread", "sync", "time", "net", "macros"] }
tokio-tungstenite = "0.26"
futures-util = "0.3"
log = "0.4"
env_logger = "*"
ethers = { version = "2", default-features = false }
