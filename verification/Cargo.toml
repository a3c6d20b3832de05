[package]
name = "ebay"
version = "0.1.0"
edition = "2021"
publish = false

[dependencies]
scraper = "=0.29.0"
csv = "=1.4.0"
chrono = "=0.4.45"
color-eyre = "=0.6.5"
crossterm = { version = "=0.29.0", features = ["event-stream"] }
env_logger = "=0.11.11"
fantoccini = "=0.22.1"
futures = "=0.3.34"
log = "=0.4.34"
ratatui = "=0.30.2"
tokio = { version = "=1.54.1", features = ["full"] }
anyhow = "*"
clap = { version = "*", features = ["derive"] }
serde = { version = "*", features = ["derive"] }
serde_json = "*"
tempfile = "*"
which = "*"
