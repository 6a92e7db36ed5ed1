[package]
name = "agent_rig"
version = "0.1.0"
edition = "2021"
publish = false

[dependencies]
async-stream = "=0.3.6"
async-trait = "=0.1.92"
futures-util = "=0.3.34"
ollama-rs = { version = "=0.3.6", features = ["stream"] }
schemars = "=1.2.3"
serde = { version = "=1.0.229", features = ["derive"] }
serde_json = "=1.0.154"
thiserror = "=2.0.21"
tokio = { version = "=1.54.1", features = ["rt", "sync", "macros"] }
tokio-util = { version = "=0.7.20", features = ["rt"] }
tracing = "=0.1.44"
