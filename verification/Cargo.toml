[package]
name = "devzen-bots"
version = "0.1.0"
edition = "2021"
publish = false

[dependencies]
axum = "0.8"
matrix-sdk = { version = "0.14", default-features = false, features = ["rustls-tls"] }
mime = "0.3"
regex = "1"
reqwest = { version = "0.12", default-features = false, features = ["json", "rustls-tls", "socks"] }
rss = "2"
serde = { version = "1", features = ["derive"] }
serde_json = "1"
tokio = { version = "1", features = ["full"] }
toml = "0.8"
