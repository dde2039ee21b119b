[package]
name = "dse"
version = "0.1.0"
edition = "2021"
publish = false

[dependencies]
ethers = { version = "2", default-features = false }
anyhow = "1"
bincode = "1"
serde = { version = "1", features = ["derive"] }
serde_json = "1"
sled = "0.34"
tokio = { version = "1", features = ["full"] }
warp = "0.3"
structopt = "0.3"
log = "0.4"
env_logger = "0.10"
futures = "0.3"
async-trait = "0.1"
rand = "0.8"
