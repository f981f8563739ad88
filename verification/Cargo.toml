[package]
name = "update_actor"
version = "0.1.0"
edition = "2021"
publish = false

[dependencies]
oxidized-json-checker = "*"
serde_json = "*"
uuid = { version = "*", features = ["v4"] }
tokio = { version = "*", features = ["rt", "sync", "fs", "io-util"] }
anyhow = "*"
