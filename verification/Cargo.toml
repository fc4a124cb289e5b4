[package]
name = "tcp-monitor"
version = "0.1.0"
edition = "2021"
publish = false

[dependencies]
axum = "=0.7.9"
prometheus-client = "=0.23.1"
serde = { version = "=1.0.229", features = ["derive"] }
socket2 = { version = "=0.5.10", features = ["all"] }
tokio = { version = "=1.54.1", features = ["io-util", "macros", "net", "rt-multi-thread", "signal", "sync", "time"] }
tokio-util = "=0.7.20"
toml = "=0.8.23"
tracing = "=0.1.44"
tracing-subscriber = { version = "=0.3.23", features = ["env-filter"] }
