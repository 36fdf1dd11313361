[package]
name = "mediafire_rs"
version = "0.1.0"
edition = "2021"
publish = false

[dependencies]
regex = "=1.13.1"
md5 = "=0.8.1"
ring = "=0.17.14"
hex = "=0.4.3"
scraper = "=0.29.0"
serde = { version = "=1.0.229", features = ["derive"] }
reqwest = { version = "=0.12.28", default-features = false, features = ["rustls-tls", "json"] }
tokio = { version = "=1.54.1", features = ["macros", "rt-multi-thread", "time", "sync", "fs"] }
clap = "=4.6.7"
indicatif = "=0.17.11"
colored = "=2.2.0"
futures = "=0.3.34"
anyhow = "=1.0.104"
