[package]
name = "order_store"
version = "0.1.0"
edition = "2021"
publish = false

[dependencies]
axum = "0.6"
clap = { version = "4", features = ["derive"] }
log = "0.4"
log4rs = "1"
serde = { version = "1", features = ["derive"] }
serde_json = "1"
tokio = { version = "1", features = ["full"] }
tokio-postgres = "0.7"
