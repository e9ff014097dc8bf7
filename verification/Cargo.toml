[package]
name = "bili_ticker_buy"
version = "0.1.0"
edition = "2021"
publish = false

[dependencies]
anyhow = "1"
base64 = "0.22"
chrono = "0.4"
env_logger = "0.11"
log = "0.4"
md5 = "0.7"
rand = "0.8"
reqwest = { version = "0.11", default-features = false, features = ["json", "cookies", "rustls-tls"] }
serde = { version = "1", features = ["derive"] }
serde_json = "1"
sntpc = "0.3"
tiny_http = "0.12"
tokio = { version = "1", features = ["full"] }
uuid = { version = "1", features = ["v4"] }
