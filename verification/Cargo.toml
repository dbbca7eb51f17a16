[package]
name = "mcproto_rs"
version = "0.2.0"
edition = "2021"
publish = false

[dependencies]
rand = "0.8"
base64 = "0.13"
serde = { version = "1", features = ["derive"] }
serde_json = "1"
