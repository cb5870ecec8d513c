[package]
name = "weld"
version = "0.1.0"
edition = "2021"
publish = false

[dependencies]
serde = { version = "=1.0.229", features = ["derive"] }
serde_json = "=1.0.154"
bincode = "=1.3.3"
bytes = "=1.12.1"
tokio = { version = "=1.54.1", features = ["full"] }
tokio-util = { version = "=0.7.20", features = ["codec"] }
futures = "=0.3.34"
ethereum-types = "=0.14.1"
ethers-core = "=2.0.14"
ethers-providers = { version = "=2.0.14", default-features = false }
tendermint-proto = "=0.41.0"
eyre = "=0.6.14"
anyhow = "=1.0.104"
log = "=0.4.35"
env_logger = { version = "=0.10.2", default-features = false }
rand = "=0.8.8"
reqwest = { version = "=0.11.27", default-features = false, features = ["json"] }
warp = { version = "=0.3.7", default-features = false }
clap = { version = "=4.6.7", features = ["derive"] }
yansi = "=0.5.1"
tracing-subscriber = { version = "=0.3.23", features = ["env-filter"] }
tracing-error = "=0.2.1"
