[package]
name = "oasis_rofl_client"
version = "0.1.0"
edition = "2021"
publish = false

[dependencies]
backoff = "=0.4.0"
hex = "=0.4.3"
rand = "=0.8.8"
serde = { version = "=1.0.229", features = ["derive"] }
serde_json = "=1.0.154"
tokio = { version = "=1.54.1", features = ["rt"] }
