[package]
name = "janus_relay"
version = "0.1.0"
edition = "2021"
publish = false

[dependencies]
libp2p = { version = "*", default-features = false, features = ["ed25519"] }
uuid = { version = "1", features = ["v4"] }
serde_json = "1"
futures = "0.3"
log = "0.4"
tokio = { version = "1", features = ["rt", "sync", "time", "macros"] }
async-timer = "*"
