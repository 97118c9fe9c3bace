[package]
name = "metascoop"
version = "0.1.0"
edition = "2021"
publish = false

[dependencies]
anyhow = "=1.0.104"
clap = { version = "=4.6.7", features = ["derive", "env"] }
env_logger = "=0.11.11"
log = "=0.4.34"
octocrab = "=0.47.1"
reqwest = { version = "=0.12.28", default-features = false, features = ["rustls-tls"] }
serde = { version = "=1.0.229", features = ["derive"] }
serde_json = "=1.0.154"
serde_yaml = "=0.9.34"
tempfile = "=3.27.0"
tera = { version = "=1.20.1", default-features = false }
tokio = { version = "=1.54.1", features = ["macros", "rt-multi-thread", "fs", "io-util"] }
unicode-normalization = "=0.1.26"
url = "=2.5.8"
walkdir = "=2.5.0"
