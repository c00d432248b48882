[package]
name = "polymarket_wallet"
version = "0.1.0"
edition = "2021"
publish = false

[dependencies]
alloy-signer-local = "*"
anyhow = "1.0.104"
clap = { version = "4.6.7", default-features = false, features = ["derive", "std", "help", "usage"] }
dirs = "6.0.0"
serde = { version = "1.0.229", features = ["derive"] }
serde_json = "1.0.151"
