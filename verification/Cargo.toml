[package]
name = "provola"
version = "0.1.0"
edition = "2021"
publish = false

[dependencies]
serde = { version = "*", features = ["derive"] }
serde_json = "*"
serde-xml-rs = "*"
subprocess = "*"
notify = "*"
log = "*"
env_logger = "*"
