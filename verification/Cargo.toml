[package]
name = "medio"
version = "0.1.0"
edition = "2021"
publish = false

[dependencies]
regex = "=1.13.1"
tera = "=1.20.1"
twox-hash = "=1.6.3"
serde = { version = "=1.0.229", features = ["derive"] }
serde_json = "=1.0.154"
toml = "=0.8.23"
clap = { version = "=4.6.7", features = ["derive"] }
dirs = "=5.0.1"
chrono = "=0.4.45"
ignore = "=0.4.34"
reqwest = { version = "0.12", default-features = false, features = ["blocking", "json", "rustls-tls"] }
tokio = { version = "1", features = ["rt-multi-thread"] }
futures = "0.3"
sled = "0.34"
trash = "5"
ratatui = "0.29"
crossterm = "0.28"
dialoguer = "0.11"
which = "7"
rayon = "1"
mp4parse = "0.17"
matroska-demuxer = "*"
symphonia = "0.5"
