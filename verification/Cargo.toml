[package]
name = "ussal"
version = "0.1.0"
edition = "2021"
publish = false

[dependencies]
anyhow = "=1.0.104"
axum = { version = "=0.7.9", features = ["ws"] }
axum-server = "0.7"
clap = { version = "=4.6.7", features = ["derive"] }
dirs-next = "=2.0.0"
futures = "=0.3.34"
futures-util = "=0.3.34"
notify = "=6.1.1"
serde = { version = "=1.0.229", features = ["derive"] }
serde_cbor = "=0.11.2"
serde_json = "=1.0.154"
subprocess = "=0.2.15"
tokio = { version = "=1.54.1", features = ["full"] }
tokio-tungstenite = "=0.21.0"
tracing = "=0.1.44"
tracing-appender = "=0.2.5"
tracing-subscriber = { version = "=0.3.23", features = ["json"] }
uuid = { version = "=1.29.0", features = ["v4", "serde"] }
