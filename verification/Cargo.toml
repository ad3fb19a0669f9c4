[package]
name = "pixeldrive"
version = "0.1.0"
edition = "2021"
publish = false

[dependencies]
png = "=0.17.16"
jpeg-decoder = { version = "=0.3.2", default-features = false, features = ["platform_independent"] }
jpeg-encoder = "=0.7.1"
serde = { version = "=1.0.229", features = ["derive"] }
serde_json = "=1.0.154"
