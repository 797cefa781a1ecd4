[package]
name = "kantan"
version = "0.1.0"
edition = "2021"
publish = false

[dependencies]
anyhow = "1.0"
auto-future = "1.0"
cookie = "0.16"
hyper = { version = "0.14", features = ["client", "http1", "tcp"] }
hyper-tls = "0.5"
serde = "1.0"
serde_json = "1.0"
