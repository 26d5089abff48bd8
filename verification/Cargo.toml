[package]
name = "gossip_glomers"
version = "0.1.0"
edition = "2021"
publish = false

[dependencies]
anyhow = "=1.0.104"
regex = "=1.13.1"
serde = "=1.0.229"
serde_json = "=1.0.154"
uuid = { version = "=1.29.0", features = ["v7"] }
