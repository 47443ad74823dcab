[package]
name = "directory_spider"
version = "0.1.0"
edition = "2021"
publish = false

[dependencies]
clap = { version = "4", features = ["derive"] }
walkdir = "2"
parselnk = "*"

[dev-dependencies]
serde_json = "1"
