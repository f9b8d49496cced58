[package]
name = "rustymind"
version = "0.1.0"
edition = "2021"
publish = false

[dependencies]
serialport = { version = "*", default-features = false }
clap = "*"
hex = "*"
serde = { version = "*", features = ["derive"] }
serde_json = "*"
anyhow = "*"
