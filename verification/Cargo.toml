[package]
name = "ctypes"
version = "0.1.0"
edition = "2021"
publish = false

[dependencies]
anyhow = "*"
clang = { version = "*", features = ["runtime"] }
serde = { version = "*", features = ["derive"] }
serde_json = "*"
