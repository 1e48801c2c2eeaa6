[package]
name = "trojan_core"
version = "0.1.0"
edition = "2021"
publish = false

[dependencies]
sha2 = "*"
toml = "*"
tokio = { version = "*", features = ["io-util", "rt", "macros"] }
async-trait = "*"
log = "*"
env_logger = "*"
serde = { version = "*", features = ["derive"] }
