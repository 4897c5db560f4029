[package]
name = "gold_rates"
version = "0.1.0"
edition = "2021"
publish = false

[dependencies]
subtle = "2"
axum = { version = "0.8", features = ["ws"] }
bytes = "1"
futures-util = "0.3"
mimalloc = "0.1"
reqwest = { version = "0.12", default-features = false, features = ["rustls-tls", "gzip"] }
scraper = "*"
serde = { version = "1", features = ["derive"] }
serde_json = "1"
tokio = { version = "1", features = ["full"] }
tokio-tungstenite = { version = "0.26", features = ["rustls-tls-webpki-roots"] }
tower-http = { version = "0.6", features = ["compression-gzip", "compression-br", "compression-deflate"] }
tracing = "0.1"
tracing-subscriber = { version = "0.3", features = ["env-filter"] }
