[package]
name = "ct_monitor"
version = "0.1.0"
edition = "2021"
publish = false

[dependencies]
serde_json = "*"
base64 = "*"
chrono = "*"
anyhow = "*"
reqwest = { version = "*", default-features = false }
tokio = { version = "*", default-features = false, features = ["rt", "time", "macros"] }
ctclient = "*"
keystore-rs = "*"
