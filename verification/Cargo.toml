[package]
name = "frt"
version = "0.1.0"
edition = "2021"
publish = false

[dependencies]
regex = "1"
imagesize = "*"
serde = { version = "1", features = ["derive"] }
serde_json = "1"
serde_yaml = "*"
toml = "*"
tera = "1"
clap = { version = "4", features = ["derive"] }
anyhow = "1"
log = "0.4"
pretty_env_logger = "*"
