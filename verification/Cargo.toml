[package]
name = "kasugai_box"
version = "0.1.0"
edition = "2021"
publish = false

[dependencies]
kamadak-exif = "=0.5.5"
uuid = { version = "=1.29.0", features = ["v4"] }
regex = "1"
serde = { version = "=1.0.229", features = ["derive"] }
serde_json = "=1.0.154"
anyhow = "=1.0.104"
tokio = { version = "=1.54.1", features = ["full"] }
axum = "=0.8.9"
reqwest = { version = "=0.12.28", default-features = false, features = ["json", "rustls-tls"] }
keyring = "=3.6.3"
csv = "=1.4.0"
dirs = "=5.0.1"
futures = "=0.3.34"
opener = "=0.7.2"
inquire = "=0.7.5"
rusqlite = { version = "=0.32.1", features = ["bundled"] }
