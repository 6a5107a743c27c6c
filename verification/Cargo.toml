[package]
name = "indradb"
version = "0.1.0"
edition = "2021"
publish = false

[dependencies]
chrono = { version = "0.4", default-features = false, features = ["clock", "std"] }
rand = "0.8"
serde_json = "1"
uuid = { version = "1", features = ["v4"] }
