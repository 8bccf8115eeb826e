[package]
name = "lecture-distill"
version = "0.1.0"
edition = "2021"
publish = false

[dependencies]
anyhow = "1"
async-trait = "0.1"
axum = "=0.8.9"
chrono = { version = "0.4", features = ["serde"] }
clap = { version = "4", features = ["derive"] }
env_logger = "0.11"
futures-util = "0.3"
log = "0.4"
lopdf = "=0.46.0"
mitex = "=0.2.4"
pulldown-cmark = "=0.13.6"
regex = "=1.13.1"
reqwest = { version = "0.12", default-features = false, features = ["json", "stream", "cookies", "charset", "http2", "rustls-tls"] }
scraper = "=0.29.0"
serde = { version = "1", features = ["derive"] }
serde_json = "=1.0.154"
thiserror = "1"
tokio = { version = "1", features = ["full"] }
url = "=2.5.8"
uuid = { version = "1", features = ["v4"] }

[dev-dependencies]
tempfile = "3"
