[package]
name = "record_codec"
version = "0.1.0"
edition = "2021"
publish = false

[dependencies]
chrono = { version = "=0.4.45", default-features = false, features = ["std"] }
humantime = "=2.4.0"
url = "=2.5.8"
uuid = "=1.29.0"
serde_json = { version = "=1.0.154", features = ["preserve_order"] }
serde_yaml = "=0.9.34"
toml = "=1.1.8"
