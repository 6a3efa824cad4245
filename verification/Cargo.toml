[package]
name = "video_smart_downloader"
version = "0.1.0"
edition = "2021"
publish = false

[dependencies]
serde = { version = "*", features = ["derive"] }
serde_json = "*"
dirs = "*"
anyhow = "*"
reqwest = { version = "*", default-features = false }
