[package]
name = "qtex"
version = "0.1.0"
edition = "2021"
publish = false

[dependencies]
axum = { version = "0.7", features = ["ws"] }
clap = { version = "4", features = ["derive"] }
colored = "2"
dirs = "5"
futures = "0.3"
indicatif = "0.17"
notify = "6"
open = "5"
reqwest = { version = "0.12", features = ["json", "multipart"] }
semver = "1"
serde = { version = "1", features = ["derive"] }
serde_json = "1"
tokio = { version = "1", features = ["full"] }
tower-http = { version = "0.5", features = ["cors", "fs"] }
