[package]
name = "rms_gateway"
version = "0.1.0"
edition = "2021"
publish = false

[dependencies]
anyhow = "1"
axum = "*"
env_logger = "*"
futures-util = "0.3"
http = "1"
log = "0.4"
serde_json = "1"
tinc = "*"
tokio = { version = "1", features = ["macros", "rt-multi-thread", "net"] }
tonic = "*"
tower-http = { version = "*", features = ["set-header", "map-request-body", "map-response-body"] }
