[package]
name = "opentorrent"
version = "0.1.31"
edition = "2021"
publish = false

[dependencies]
anyhow = "1"
bytes = "1"
chrono = "0.4"
clap = { version = "4", features = ["derive"] }
crossterm = "0.29"
dirs = "*"
futures = "0.3"
indicatif = "0.18"
librqbit = { version = "8.1.1", default-features = false, features = ["rust-tls"] }
librqbit-bencode = "*"
reqwest = { version = "0.12", default-features = false, features = ["rustls-tls", "json", "stream"] }
semver = "1"
serde = { version = "1", features = ["derive"] }
serde_json = "1"
size_format = "1"
tokio = { version = "1", features = ["full"] }
tracing = "0.1"
tracing-subscriber = { version = "0.3", features = ["env-filter"] }
url = "2"
