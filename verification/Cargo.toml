[package]
name = "codex_control_plane"
version = "0.1.0"
edition = "2021"
publish = false

[dependencies]
async-trait = "=0.1.92"
futures = "=0.3.34"
reqwest = { version = "=0.12.28", default-features = false, features = ["json"] }
serde = { version = "=1.0.229", features = ["derive"] }
serde_json = "=1.0.154"
tokio = { version = "=1.54.1", features = ["rt-multi-thread", "macros", "sync", "time"] }
tokio-tungstenite = "=0.30.0"
tracing = "=0.1.44"
url = "=2.5.8"
uuid = { version = "=1.29.0", features = ["v4"] }
