[package]
name = "daprox"
version = "0.1.0"
edition = "2021"
publish = false

[dependencies]
anyhow = "=1.0.104"
axum = "=0.8.9"
clap = { version = "=4.6.7", features = ["derive"] }
rustls = { version = "=0.23.45", default-features = false, features = ["ring", "std", "tls12", "logging"] }
serde = { version = "*", features = ["derive"] }
serde_json = "=1.0.151"
serde_yaml = "*"
tokio = { version = "=1.53.2", features = ["full"] }
tokio-postgres = { version = "=0.7.18", features = ["with-serde_json-1"] }
tokio-postgres-rustls = "=0.13.0"
tracing = "*"
tracing-subscriber = "*"
