[package]
name = "stackdriver_logger"
version = "0.9.0"
edition = "2021"
publish = false

[dependencies]
chrono = "0.4"
log = { version = "0.4", features = ["kv"] }
env_logger = "*"
pretty_env_logger = "*"
serde_json = "1"
toml = "*"
