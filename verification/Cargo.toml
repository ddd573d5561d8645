[package]
name = "cultivation_proxy"
version = "0.1.0"
edition = "2021"
publish = false

[dependencies]
base64 = "0.13"
serde = { version = "1", features = ["derive"] }
serde_json = "1"
sysinfo = "*"
reqwest = { version = "*", default-features = false, features = ["blocking"] }
