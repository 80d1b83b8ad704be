[package]
name = "upload_gateway"
version = "0.1.0"
edition = "2021"
publish = false

[dependencies]
async-hash = "=0.6.0"
hex = "=0.4.3"
uuid = { version = "=1.27.0", features = ["v4"] }
rust-s3 = "=0.34.0"
axum = { version = "=0.6.20", features = ["multipart"] }
tokio = { version = "=1.53.2", features = ["macros", "rt-multi-thread", "net"] }
futures = "=0.3.34"
async-compat = "=0.2.6"
log = "=0.4.34"
env_logger = "=0.10.2"
serde = { version = "=1.0.229", features = ["derive"] }
