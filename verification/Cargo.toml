[package]
name = "node_evaluate"
version = "0.1.0"
edition = "2021"
publish = false

[dependencies]
anyhow = "1"
futures-retry = "0.6"
indexmap = "1"
serde = { version = "1", features = ["derive"] }
serde_json = "1"
tokio = { version = "1", features = ["rt", "time"] }
