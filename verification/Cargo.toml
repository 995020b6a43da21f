[package]
name = "deepseek_api"
version = "0.1.0"
edition = "2021"
publish = false

[dependencies]
serde = { version = "1", features = ["derive"] }
serde_json = "1"
reqwest = { version = "0.12", features = ["json"] }
tokio = { version = "1", features = ["rt-multi-thread"] }
futures = "0.3"
async-stream = "0.3"
crossbeam-channel = "0.5"
ron = "*"
