[package]
name = "vsnap"
version = "0.1.0"
edition = "2021"
publish = false

[dependencies]
anyhow = "=1.0.104"
async-compression = { version = "=0.4.51", features = ["tokio", "zstd"] }
bollard = "=0.18.1"
chrono = "=0.4.45"
clap = { version = "=4.6.7", features = ["derive"] }
console = "=0.16.6"
futures = "=0.3.34"
futures-util = "=0.3.34"
indicatif = "=0.17.11"
indoc = "=2.0.8"
inquire = "=0.9.4"
tabled = "=0.22.0"
tokio = { version = "=1.54.1", features = ["full"] }
tokio-tar = "=0.3.1"
walkdir = "=2.5.0"

[dev-dependencies]
rand = "0.9"
regex = "=1.13.1"
serde_json = "=1.0.154"
tempfile = "3"
