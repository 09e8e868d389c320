[package]
name = "rayhunter"
version = "0.1.0"
edition = "2021"
publish = false

[dependencies]
axum = "=0.7.9"
chrono = "=0.4.45"
futures = "=0.3.34"
image = { version = "=0.25.10", default-features = false, features = ["gif", "png"] }
log = "=0.4.34"
serde = { version = "=1.0.229", features = ["derive"] }
simple_logger = "=5.2.0"
tokio = { version = "=1.54.1", features = ["full"] }
tokio-util = { version = "=0.7.20", features = ["io", "rt"] }
toml = "=0.8.23"
