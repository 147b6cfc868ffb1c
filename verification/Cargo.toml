[package]
name = "forge_core"
version = "0.1.0"
edition = "2021"
publish = false

[dependencies]
uuid = { version = "1", features = ["v4"] }
base64 = "*"
portable-pty = "*"
dirs = "*"
