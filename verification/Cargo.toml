[package]
name = "telegram"
version = "0.1.0"
edition = "2021"
publish = false

[dependencies]
byteorder = "1"
time = "0.1"
hyper = "0.11"
futures = "0.1"
tokio-core = "0.1"
serde = { version = "1", features = ["derive"] }
serde_json = "1"
syn = "0.11"
quote = "0.3"
