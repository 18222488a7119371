[package]
name = "gremlin_client"
version = "0.1.0"
edition = "2021"
publish = false

[dependencies]
base64 = "0.13"
uuid = { version = "1", features = ["v4"] }
serde = "1"
serde_derive = "1"
serde_json = "1"
chrono = "0.4"
r2d2 = "0.8"
tungstenite = "0.21"
