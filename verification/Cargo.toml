[package]
name = "warpllm"
version = "0.2.0"
edition = "2021"
publish = false

[dependencies]
serde = { version = "1", features = ["derive"] }
serde_json = "1"
yaml_serde = "*"
reqwest = { version = "0.12", default-features = false, features = ["json"] }
axum = "0.8"
tokio = { version = "1", features = ["rt-multi-thread", "net"] }
tracing = "0.1"
