[package]
name = "gitingest"
version = "0.1.0"
edition = "2021"
publish = false

[dependencies]
glob = "0.3"
base64 = "0.13"
urlencoding = "2"
serde = { version = "1", features = ["derive"] }
serde_json = "1"
anyhow = "1"
reqwest = { version = "0.12", default-features = false, features = ["blocking"] }
