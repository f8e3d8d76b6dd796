[package]
name = "loom_cli"
version = "0.1.0"
edition = "2021"
publish = false

[dependencies]
unicode-width = "=0.2.0"
serde = { version = "=1.0.229", features = ["derive"] }
serde_json = "=1.0.154"
serde_yaml = "=0.9.34"
ratatui = "=0.29.0"
crossterm = { version = "=0.28.1", features = ["event-stream"] }
tokio = { version = "=1.54.1", features = ["full"] }
tokio-stream = "0.1"
futures-util = "=0.3.34"
libc = "=0.2.191"
