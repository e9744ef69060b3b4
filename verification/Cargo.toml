[package]
name = "payment_relay"
version = "0.1.0"
edition = "2021"
publish = false

[dependencies]
serde_json = "1"
hmac = "0.12"
sha2 = "0.10"
chrono = "0.4"
uuid = { version = "1", features = ["v4"] }
axum = { version = "0.8", features = ["ws"] }
tokio = { version = "1", features = ["rt-multi-thread", "macros", "sync", "net"] }
futures = "0.3"
