[package]
name = "loyalty_card"
version = "0.1.0"
edition = "2021"
publish = false

[dependencies]
mongodb = { version = "=2.8.2", features = ["tokio-sync"] }
rand = "=0.8.8"
serde = { version = "=1.0.229", features = ["derive"] }
log = "=0.4.34"
env_logger = "=0.10.2"
