[package]
name = "httpho"
version = "0.1.0"
edition = "2021"
publish = false

[dependencies]
url = "*"
actix-web = "*"
actix-files = "*"
awc = "*"
anyhow = "*"
clap = { version = "*", features = ["derive"] }
config = "*"
log = "*"
pretty_env_logger = "*"
serde = { version = "*", features = ["derive"] }
