[package]
name = "block_crawler"
version = "0.1.0"
edition = "2021"
publish = false

[dependencies]
serde = { version = "*", features = ["derive"] }
tokio = { version = "*", features = ["sync", "time"] }
tracing = "*"
