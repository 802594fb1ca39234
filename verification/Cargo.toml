[package]
name = "bs_nfts"
version = "0.1.0"
edition = "2021"
publish = false

[dependencies]
cosmwasm-std = "=1.5.11"
cosmwasm-schema = "=1.5.11"
schemars = "=0.8.22"
bs721 = "=0.1.0-alpha.1"
reqwest = { version = "=0.13.5", default-features = false }
serde_json = "=1.0.154"
anyhow = "=1.0.104"
clap = { version = "=4.6.7", features = ["derive"] }
dotenv = "=0.15.0"
env_logger = "=0.11.11"
log = "=0.4.35"
dirs = "=7.0.0"
tokio = { version = "=1.54.1", features = ["rt-multi-thread"] }
