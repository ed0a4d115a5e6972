[package]
name = "feedparser-rs-core"
version = "0.1.0"
edition = "2021"
publish = false

[dependencies]
chrono = { version = "=0.4.45", default-features = false, features = ["std"] }
quick-xml = "=0.38.4"
reqwest = { version = "=0.12.28", default-features = false, features = ["blocking", "gzip", "deflate", "brotli", "rustls-tls"] }
serde_json = "=1.0.154"
url = "=2.5.8"
