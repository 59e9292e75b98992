[package]
name = "proexel"
version = "0.1.0"
edition = "2021"
publish = false

[dependencies]
appcore-bin = "*"
appcore-security = "*"
serde = { version = "1", features = ["derive"] }
serde_json = "1"
