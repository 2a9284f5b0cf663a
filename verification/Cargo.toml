[package]
name = "plugin_host"
version = "0.1.0"
edition = "2021"
publish = false

[dependencies]
url = "=2.5.8"
http = "1"
serde_json = "=1.0.151"
chrono = "=0.4.45"
r2d2 = "=0.8.10"
redis = { version = "=1.7.1", features = ["r2d2"] }
reqwest = { version = "=0.13.5", default-features = false, features = ["blocking"] }
