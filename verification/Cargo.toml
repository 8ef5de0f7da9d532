[package]
name = "tokenauth"
version = "0.1.0"
edition = "2021"
publish = false

[dependencies]
hmac = "=0.12.1"
sha2 = "=0.10.9"
uuid = { version = "=1.27.0", features = ["v4", "serde"] }
chrono = "=0.4.45"
axum = "=0.7.9"
tokio = { version = "=1.53.2", features = ["rt-multi-thread", "net", "macros"] }
serde = { version = "=1.0.229", features = ["derive"] }
serde_json = "=1.0.151"
