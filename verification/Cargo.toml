[package]
name = "rssq"
version = "0.1.0"
edition = "2021"
publish = false

[dependencies]
sha1 = "0.10"
feed-rs = "2"
chrono = "0.4"
reqwest = { version = "0.12", default-features = false, features = ["rustls-tls"] }
tokio = { version = "1", features = ["rt-multi-thread", "sync", "time", "macros"] }
serde = { version = "1", features = ["derive"] }
serde_json = "1"
toml = "0.8"
directories = "5"
crossterm = "0.28"
ratatui = "0.29"
open = "5"
log = "0.4"
