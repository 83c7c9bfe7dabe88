[package]
name = "copilot_usage"
version = "0.1.0"
edition = "2021"
publish = false

[dependencies]
anyhow = "1"
futures = "0.3"
http = "1"
log = "0.4"
serde = { version = "1", features = ["derive"] }
serde_json = "1"
