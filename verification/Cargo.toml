[package]
name = "arrest"
version = "0.1.0"
edition = "2021"
publish = false

[dependencies]
anyhow = "1"
async-trait = "0.1"
reqwest = { version = "0.12", default-features = false, features = ["default-tls"] }
serde = "1"
serde_json = "1"
tokio = { version = "1", features = ["rt", "sync"] }
