[package]
name = "mining_agent"
version = "0.1.0"
edition = "2021"
publish = false

[dependencies]
rand = "*"
serde = { version = "1", features = ["derive"] }
serde_json = "1"
tungstenite = "*"
uuid = { version = "1", features = ["serde"] }
