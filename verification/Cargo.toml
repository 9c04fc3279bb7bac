[package]
name = "difttt"
version = "0.1.0"
edition = "2021"
publish = false

[dependencies]
data-encoding = "2"
lite-json = "*"
serde = { version = "1", features = ["derive"] }
serde_json = "1"
