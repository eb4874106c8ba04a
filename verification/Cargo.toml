[package]
name = "chainz"
version = "0.1.0"
edition = "2021"
publish = false

[dependencies]
rand = "0.8"
tokio = { version = "1", features = ["full"] }
tracing = "0.1"
tracing-subscriber = "0.3"
