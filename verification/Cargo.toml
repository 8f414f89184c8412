[package]
name = "hostbridge"
version = "0.1.0"
edition = "2021"
publish = false

[dependencies]
base64 = "0.22"
device_query = "*"
serde = { version = "1.0", features = ["derive"] }
