[package]
name = "r3vi"
version = "0.1.0"
edition = "2021"
publish = false

[dependencies]
async-std = "1"
bincode = "1"
cgmath = "0.18"
serde = { version = "1", features = ["derive"] }
serde_json = "1"
