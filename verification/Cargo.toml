[package]
name = "p4tg_controller"
version = "0.1.0"
edition = "2021"
publish = false

[dependencies]
macaddr = "1"
rbfrt = "*"
highs = "1"
etherparse = "0.13"
rand = "0.8"
tokio = { version = "1", features = ["full"] }
tokio-util = "0.7"
axum = "0.7"
serde = { version = "1", features = ["derive"] }
serde_json = "1"
log = "0.4"
env_logger = "0.11"
