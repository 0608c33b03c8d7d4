[package]
name = "bms_downloader"
version = "0.1.0"
edition = "2021"
publish = false

[dependencies]
anyhow = "1"
clap = { version = "4", features = ["derive"] }
encoding_rs = "0.8"
env_logger = "0.11"
log = "0.4"
regex = "1"
reqwest = "0.12"
scraper = "*"
serde = { version = "1", features = ["derive"] }
smol = "2"
surf = "2"
tokio = { version = "1", features = ["macros", "rt-multi-thread"] }
toml = "*"
