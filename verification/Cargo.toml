[package]
name = "sigi"
version = "0.1.0"
edition = "2021"

[dependencies]
chrono = "0.4"
json = "0.12"
serde = { version = "1", features = ["derive"] }
serde_json = "1"
