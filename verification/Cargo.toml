[package]
name = "stricter"
version = "0.1.0"
edition = "2021"
publish = false

[dependencies]
url = "2"
toml = "0.5"
serde = { version = "1", features = ["derive"] }
clap = "2"
failure = "0.1"
log = "0.4"
pretty_env_logger = "0.4"
