[package]
name = "notifier"
version = "0.1.0"
edition = "2021"
publish = false

[dependencies]
anyhow = "1"
arxiv-rs = "0.1"
async-openai = "0.14"
chrono = "0.4"
dirs = "5"
dotenv = "0.15"
futures = "0.3"
google-bigquery2 = "5"
hyper = { version = "0.14", features = ["client", "http1", "http2"] }
hyper-tls = "0.5"
reqwest = { version = "0.11", features = ["json"] }
serde = { version = "1", features = ["derive"] }
serde_json = "1"
tokio = { version = "1", features = ["full"] }
