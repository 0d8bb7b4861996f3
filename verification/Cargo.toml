[package]
name = "pandora_toolchain"
version = "0.1.1"
edition = "2021"
publish = false

[dependencies]
regex = "1"
clap = { version = "4", features = ["derive"] }
serde = { version = "1", features = ["derive"] }
serde_json = "1"
tokio = { version = "1", features = ["full"] }
serenity = "0.12"
reqwest = { version = "0.12", features = ["blocking", "multipart", "json"] }
qbit-rs = "*"
tokio-postgres = "0.7"
