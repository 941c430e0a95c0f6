[package]
name = "review"
version = "0.1.0"
edition = "2021"
publish = false

[dependencies]
url = "1.7"
base64 = "0.13"
rmp-serde = "1"
chrono = "0.4"
serde = { version = "1", features = ["derive"] }
serde_json = "1"
