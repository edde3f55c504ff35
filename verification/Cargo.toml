[package]
name = "code_verifier"
version = "0.1.0"
edition = "2021"
publish = false

[dependencies]
rustpython-parser = "*"
anyhow = "*"
serde = { version = "*", features = ["derive"] }
uuid = { version = "*", features = ["v4"] }
