[package]
name = "tuner_server"
version = "0.1.0"
edition = "2021"
publish = false

[dependencies]
axum = "*"
futures = "*"
serde = { version = "*", features = ["derive"] }
serde_yaml = "*"
tokio = { version = "*", features = ["full"] }
tokio-stream = "*"
tracing = "*"
tracing-subscriber = "*"
