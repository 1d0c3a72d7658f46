[package]
name = "sync_client"
version = "0.1.0"
edition = "2021"
publish = false

[dependencies]
tungstenite = "=0.30.0"
get_if_addrs = "=0.5.3"
serde = { version = "*", features = ["derive"] }
serde_json = "*"
