[package]
name = "igen"
version = "0.1.0"
edition = "2021"
publish = false

[dependencies]
axum = "=0.8.9"
chrono = { version = "=0.4.45", features = ["serde"] }
config = { version = "=0.15.27", default-features = false, features = ["toml"] }
fontdue = "=0.9.5"
image = { version = "=0.25.10", default-features = false, features = ["png", "jpeg", "bmp"] }
log = "=0.4.34"
oauth2 = { version = "=5.0.0", features = ["reqwest-blocking"] }
pretty_env_logger = "=0.5.0"
reqwest = { version = "=0.12.28", features = ["blocking", "json", "multipart"] }
serde = { version = "=1.0.229", features = ["derive"] }
serde_json = "=1.0.154"
tokio = { version = "=1.54.1", features = ["full"] }
