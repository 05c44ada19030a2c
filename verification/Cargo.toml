[package]
name = "rusty-pine"
version = "0.1.0"
edition = "2021"
publish = false

[dependencies]
regex = "1"
serde = { version = "1", features = ["derive"] }
serde_json = "1"
clap = { version = "4", features = ["derive"] }
colored = "2"
dialoguer = "0.11"
mysql = { version = "*", default-features = false, features = ["minimal-rust"] }
tokio = { version = "1", features = ["full"] }
axum = "0.7"
tower-lsp = "0.20"
log = "0.4"
env_logger = "0.10"
thiserror = "1"
