[package]
name = "kimi_cli_rs"
version = "0.1.0"
edition = "2021"
publish = false

[dependencies]
regex = "=1.13.1"
serde = { version = "=1.0.229", features = ["derive"] }
serde_json = "=1.0.154"
toml = "=0.8.23"
clap = { version = "=4.6.7", features = ["derive"] }
dirs = "=5.0.1"
md5 = "=0.7.0"
thiserror = "=1.0.69"
uuid = { version = "1", features = ["v4"] }
minijinja = "2"
serde_yaml = "0.9"
chrono = "0.4"
dunce = "1"
