[package]
name = "vwap_feed"
version = "0.1.0"
edition = "2021"
publish = false

[dependencies]
serde_json = "*"
tokio = { version = "*", features = ["macros", "rt-multi-thread", "sync", "time", "net"] }
tokio-tungstenite = "*"
futures-util = "*"
url = "*"
anyhow = "*"
async-trait = "*"
