[package]
name = "tank_arena"
version = "0.1.0"
edition = "2021"
publish = false

[dependencies]
rand = "*"
base64 = "*"
base64-url = "*"
argon2 = "*"
serde = { version = "*", features = ["derive"] }
serde_json = "*"
tokio = { version = "*", features = ["rt-multi-thread", "macros", "net", "sync", "time", "io-util", "io-std"] }
tokio-tungstenite = "*"
futures-channel = "*"
futures-util = "*"
