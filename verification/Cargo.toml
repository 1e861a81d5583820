[package]
name = "novelai"
version = "0.1.0"
edition = "2021"
publish = false

[dependencies]
chrono = { version = "=0.4.45", default-features = false, features = ["std", "now", "serde"] }
serde = { version = "=1.0.229", features = ["derive"] }
serde_json = "=1.0.154"
directories = "=5.0.1"
reqwest = { version = "=0.12.28", default-features = false, features = ["blocking", "rustls-tls"] }
image = { version = "=0.25.10", default-features = false, features = ["png", "jpeg", "gif", "webp"] }
