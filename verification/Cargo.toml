[package]
name = "roof"
version = "0.1.0"
edition = "2021"
publish = false

[dependencies]
anyhow = "=1.0.104"
clap = "=2.34.0"
env_logger = "=0.10.2"
flate2 = "=1.1.10"
hyper = { version = "=0.14.32", features = ["full"] }
indicatif = "0.18"
reqwest = { version = "=0.11.27", default-features = false }
tar = "=0.4.46"
tokio = { version = "=1.53.2", features = ["full"] }
url = "=2.5.8"
