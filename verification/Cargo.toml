[package]
name = "virtus"
version = "0.1.0"
edition = "2021"
publish = false

[dependencies]
uuid = { version = "=1.27.0", features = ["v4"] }
hostname = "=0.4.2"
serde_json = "1"
