[package]
name = "moltis_work"
version = "0.1.0"
edition = "2021"
publish = false

[dependencies]
uuid = { version = "1", features = ["v4"] }
time = { version = "0.3", features = ["formatting"] }
base64 = "0.22"
serde = { version = "1", features = ["derive"] }
serde_json = "1"
serde_yaml = "0.9"
sqlx = { version = "0.8", default-features = false, features = ["sqlite", "runtime-tokio"] }
tokio = { version = "1", features = ["fs", "rt", "macros"] }
anyhow = "1"
async-trait = "0.1"
opentelemetry = "*"
opentelemetry_sdk = "*"
opentelemetry-otlp = { version = "*", default-features = false, features = ["trace", "http-proto"] }
secrecy = "*"
