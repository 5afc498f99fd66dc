[package]
name = "mpix"
version = "0.1.0"
edition = "2021"
publish = false

[dependencies]
base64 = "*"
chrono = "*"
flate2 = "*"
redis = "*"
serde_json = "*"
uuid = { version = "*", features = ["v4"] }
