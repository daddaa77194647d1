[package]
name = "services"
version = "0.1.0"
edition = "2021"
publish = false

[dependencies]
jiff = "=0.2.39"
jiff-cron = "=0.3.0"
sanitize-filename = "=0.6.0"
serde = { version = "=1.0.229", features = ["derive"] }
serde_json = "=1.0.154"
uuid = { version = "=1.29.0", features = ["v4", "v5"] }
sha2 = "=0.10.9"
regex-syntax = "=0.8.11"
url = "2"
jsonwebtoken = "9"
