[package]
name = "ovelha"
version = "0.1.0"
edition = "2021"
publish = false

[dependencies]
chrono = "=0.4.45"
redis = "=1.8.0"
serde_json = { version = "=1.0.154", features = ["arbitrary_precision"] }
ureq = { version = "=2.12.1", default-features = false }
