[package]
name = "matrix-service"
version = "0.1.0"
edition = "2021"
publish = false

[dependencies]
ammonia = "=4.0.3"
anyhow = "=1.0.104"
futures-util = "=0.3.34"
hex = "=0.4.3"
html2text = "=0.12.6"
image = { version = "=0.25.10", default-features = false, features = ["gif", "jpeg", "png", "webp"] }
matrix-sdk = { version = "=0.16.1", default-features = false, features = ["rustls-tls"] }
mime = "=0.3.17"
pulldown-cmark = { version = "=0.13.6", default-features = false, features = ["html"] }
reqwest = { version = "=0.12.28", default-features = false, features = ["rustls-tls", "stream"] }
serde_json = "=1.0.154"
sha2 = "=0.10.9"
subtle = "=2.6.1"
tokio = { version = "=1.54.1", features = ["rt-multi-thread", "sync", "time"] }
tracing = "=0.1.44"
tracing-subscriber = { version = "=0.3.23", features = ["env-filter"] }
uuid = { version = "=1.29.0", features = ["v4"] }
