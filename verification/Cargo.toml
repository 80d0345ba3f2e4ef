[package]
name = "outbound"
version = "0.1.0"
edition = "2021"
publish = false

[dependencies]
atty = "0.2"
reqwest = { version = "0.12", features = ["json", "multipart"] }
serde_json = "1"
structopt = "0.3"
tokio = { version = "1", features = ["full"] }
