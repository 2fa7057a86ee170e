[package]
name = "game"
version = "0.1.0"
edition = "2021"
publish = false

[dependencies]
serde = { version = "1", features = ["derive"] }
serde_json = "1"
json5 = "0.4"
anyhow = "1"
image = { version = "0.25", default-features = false, features = ["png"] }
