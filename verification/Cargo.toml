[package]
name = "opendev"
version = "0.1.0"
edition = "2021"
publish = false

[dependencies]
serde_json = "1"
serde = { version = "1", features = ["derive"] }
tokio = { version = "1", features = ["sync", "rt", "rt-multi-thread", "time", "macros", "io-util"] }
tracing = "0.1"
thiserror = "2"
ratatui = { version = "0.29", default-features = false }
async-trait = "0.1"
tokio-util = "0.7"
