[package]
name = "sigan"
version = "0.1.0"
edition = "2021"
publish = false

[dependencies]
anyhow = "=1.0.104"
chrono = { version = "=0.4.45", features = ["serde"] }
clap = { version = "=4.6.7", features = ["derive"] }
clap_complete = "=4.6.11"
crossterm = "=0.29.0"
csv = "=1.4.0"
dirs = "=7.0.0"
regex = "=1.13.1"
serde = { version = "=1.0.229", features = ["derive"] }
serde_json = "=1.0.154"
serde_yaml = "=0.9.34"
tabled = { version = "=0.22.0", features = ["ansi"] }
tempfile = "=3.27.0"
toml = "=1.1.8"
uuid = { version = "=1.29.0", features = ["v4"] }
