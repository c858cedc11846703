[package]
name = "content_core"
version = "0.1.0"
edition = "2021"
publish = false

[dependencies]
argon2 = "0.5"
jsonwebtoken = "9"
chrono = "0.4"
uuid = { version = "1", features = ["v7"] }
rand = "0.8"
serde = { version = "1", features = ["derive"] }
serde_json = "1"
