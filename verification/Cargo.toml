[package]
name = "picast"
version = "0.1.0"
edition = "2021"
publish = false

[dependencies]
anyhow = "=1.0.104"
async-trait = "=0.1.92"
base64 = "=0.22.1"
chrono = "=0.4.45"
clap = { version = "=4.6.7", features = ["derive", "env"] }
regex-lite = "=0.1.9"
reqwest = { version = "=0.12.28", default-features = false, features = ["rustls-tls", "socks", "cookies", "gzip", "brotli"] }
rusqlite = { version = "=0.32.1", features = ["bundled"] }
rustls = { version = "=0.23.46", default-features = false, features = ["ring", "std"] }
scraper = "=0.20.0"
sd-notify = "=0.4.5"
serde = { version = "=1.0.229", features = ["derive"] }
serde_json = "=1.0.154"
tempfile = "=3.27.0"
thiserror = "=1.0.69"
tokio = { version = "=1.54.1", features = ["full"] }
toml = "=0.8.23"
tracing = "=0.1.44"
tracing-subscriber = { version = "=0.3.23", features = ["env-filter", "json"] }
url = "=2.5.8"
uuid = { version = "=1.29.0", features = ["v4"] }
