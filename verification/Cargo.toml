[package]
name = "grok2api"
version = "0.1.0"
edition = "2021"
publish = false

[dependencies]
async-stream = "=0.3.6"
async-trait = "=0.1.92"
axum = "=0.7.9"
base64 = "=0.22.1"
bytes = "=1.12.1"
chrono = "=0.4.45"
dotenvy = "=0.15.7"
fs2 = "=0.4.3"
futures = "=0.3.34"
mime_guess = "=2.0.5"
once_cell = "=1.21.4"
rand = "=0.8.8"
reqwest = { version = "=0.12.28", default-features = false }
rust-embed = "=8.13.0"
serde = { version = "=1.0.229", features = ["derive"] }
serde_json = "=1.0.154"
sha1 = "=0.10.7"
tokio = { version = "=1.54.1", features = ["full"] }
tokio-tungstenite = "=0.26.2"
toml = "=0.8.23"
tower-http = { version = "=0.6.11", features = ["cors"] }
tracing = "=0.1.44"
tracing-subscriber = { version = "=0.3.23", features = ["env-filter"] }
url = "=2.5.8"
urlencoding = "=2.1.3"
uuid = { version = "=1.29.0", features = ["v4"] }
wreq = "=0.15.3"
wreq-util = { version = "=0.1.0", features = ["emulation-serde"] }
