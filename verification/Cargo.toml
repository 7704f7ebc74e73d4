[package]
name = "eocc-core"
version = "0.1.0"
edition = "2021"
publish = false

[dependencies]
urlencoding = "2"
serde = { version = "1", features = ["derive"] }
serde_json = "1"
toml = "0.8"
ureq = "2"
log = "0.4"
env_logger = "0.11"
tiny_http = "0.12"
dirs = "5"
notify-rust = "4"
