[package]
name = "portpub"
version = "0.1.0"
edition = "2021"
publish = false

[dependencies]
anyhow = "1"
chrono = "0.4"
clap = { version = "4", features = ["derive"] }
color-eyre = "0.6"
copypasta = "0.10"
crossterm = { version = "0.29", features = ["event-stream"] }
dashmap = "6"
futures = "0.3"
httparse = "1"
human_bytes = "0.4"
rand = "0.8"
ratatui = "0.30"
serde = { version = "1", features = ["derive"] }
serde_json = "1"
tokio = { version = "1", features = ["full"] }
tokio-stream = "0.1"
tokio-util = { version = "0.7", features = ["codec"] }
tracing = "0.1"
tracing-subscriber = "0.3"
uuid = { version = "1", features = ["serde", "v4"] }
