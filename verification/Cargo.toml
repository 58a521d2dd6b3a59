[package]
name = "hitomi_downloader"
version = "0.1.0"
edition = "2021"
publish = false

[dependencies]
byteorder = "=1.5.0"
indexmap = "=2.14.2"
regex = "=1.13.1"
regex-lite = "=0.1.9"
sha2 = "=0.11.1"
strfmt = "=0.2.6"
serde_json = "=1.0.154"
anyhow = "=1.0.104"
bytes = "=1.12.1"
chrono = "=0.4.45"
futures = "=0.3.34"
image = { version = "=0.25.10", default-features = false, features = ["webp"] }
lopdf = { version = "=0.46.0", features = ["embed_image"] }
parking_lot = "=0.12.5"
reqwest = "=0.12.28"
reqwest-middleware = "=0.4.2"
reqwest-retry = "=0.7.0"
serde = { version = "=1.0.229", features = ["derive"] }
tokio = { version = "=1.54.1", features = ["full"] }
uuid = { version = "=1.29.0", features = ["v4"] }
walkdir = "=2.5.0"
yaserde = "=0.13.1"
yaserde_derive = "=0.13.1"
zip = { version = "=2.6.1", default-features = false, features = ["deflate"] }
