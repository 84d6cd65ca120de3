[package]
name = "openreality"
version = "0.1.0"
edition = "2021"
publish = false

[dependencies]
chrono = "*"
clap = { version = "*", features = ["derive"] }
serde = { version = "*", features = ["derive"] }
toml = "*"
anyhow = "*"
tokio = { version = "*", features = ["process", "rt", "macros"] }
log = "*"
env_logger = "*"
