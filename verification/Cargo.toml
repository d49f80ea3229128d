[package]
name = "knobs"
version = "0.1.0"
edition = "2021"
publish = false

[dependencies]
clap = "2.33"
comfy-table = "*"
dirs = "4"
env_logger = "0.9"
futures = "0.3"
log = "0.4"
measurements = "0.11"
nix = "0.23"
regex = "1"
serde = { version = "1", features = ["derive"] }
serde_yaml = "0.8"
thiserror = "1"
tokio = { version = "1", features = ["full"] }
async-trait = "0.1"
parking_lot = "0.12"
