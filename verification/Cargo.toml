[package]
name = "spacebot"
version = "0.1.0"
edition = "2021"
publish = false

[dependencies]
base64 = "=0.22.1"
chrono = { version = "=0.4.45", features = ["serde"] }
mime_guess = "=2.0.5"
serde_json = "=1.0.154"
toml_edit = "=0.22.27"
uuid = { version = "=1.29.0", features = ["v4", "serde"] }
anyhow = "1"
arc-swap = "1"
axum = "=0.8.9"
futures = "0.3"
serde = { version = "1", features = ["derive"] }
thiserror = "2"
tokio = { version = "=1.54.1", features = ["full"] }
toml = "=0.8.23"
tower-http = { version = "0.6", features = ["cors"] }
tracing = "0.1"
