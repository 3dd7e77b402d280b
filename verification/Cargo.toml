[package]
name = "post_endpoint"
version = "0.1.0"
edition = "2021"
publish = false

[dependencies]
serde = "1"
serde_json = "1"
reqwest = { version = "0.11", default-features = false, features = ["json"] }
tokio = { version = "1", features = ["fs", "io-util"] }
