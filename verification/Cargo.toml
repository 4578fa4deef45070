[package]
name = "thru"
version = "0.4.0"
edition = "2021"
publish = false

[dependencies]
anyhow = "1.0"
clap = { version = "4.5", features = ["derive"] }
ctrlc = "3"
serde = { version = "1.0", features = ["derive"] }
serde_json = "1.0"
toml = "0.8"
chrono = { version = "0.4", features = ["serde"] }
dirs = "5.0"
tokio = { version = "1.0", features = ["full"] }
axum = { version = "0.7", features = ["multipart"] }
reqwest = { version = "0.12", default-features = false, features = ["multipart", "stream"] }
uuid = { version = "1.0", features = ["v4"] }
hostname = "0.4"
local-ip-address = "0.6"
notify = "6.1"
async-stream = "0.3"
indicatif = "0.17"
