[package]
name = "axolotl_core"
version = "0.1.0"
edition = "2021"
publish = false

[dependencies]
flume = "=0.12.0"
serde = { version = "=1.0.229", features = ["derive"] }
serde_json = "=1.0.151"
uuid = "=1.27.0"
