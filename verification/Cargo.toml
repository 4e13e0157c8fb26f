[package]
name = "openfang_web_auth"
version = "0.1.0"
edition = "2021"
publish = false

[dependencies]
argon2 = { version = "0.5", features = ["std"] }
axum = { version = "0.8", default-features = false, features = ["tokio", "http1"] }
chrono = "0.4"
dashmap = "6"
hex = "0.4"
rand = "0.8"
serde = { version = "1", features = ["derive"] }
serde_json = "1"
sha2 = "0.10"
subtle = "2"
tracing = "0.1"
uuid = { version = "1", features = ["v4"] }
