[package]
name = "kimi_companion"
version = "1.0.0"
edition = "2021"
publish = false

[dependencies]
base64 = "=0.22.1"
serde = { version = "1", features = ["derive"] }
serde_json = "1"
rusqlite = "0.37"
reqwest = { version = "0.12", default-features = false, features = ["blocking", "rustls-tls"] }
