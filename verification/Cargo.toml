[package]
name = "generator"
version = "0.1.0"
edition = "2021"
publish = false

[dependencies]
Inflector = "0.11.4"
serde_urlencoded = "0.7"
anyhow = "1"
openapiv3 = "1.0"
serde = { version = "1", features = ["derive"] }
serde_json = "1"
reqwest = { version = "0.11", default-features = false }
