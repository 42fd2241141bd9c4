[package]
name = "snap-coin-miner"
version = "0.1.0"
edition = "2021"
publish = false

[dependencies]
anyhow = "1"
bincode = "=2.0.1"
chrono = "=0.4.45"
config = { version = "=0.15.27", default-features = false, features = ["toml"] }
core_affinity = "=0.8.3"
crossterm = "=0.28.1"
num-bigint = "=0.4.8"
rand = "=0.9.5"
ratatui = "=0.29.0"
snap-coin = { version = "=16.1.0", features = ["light"] }
tokio = { version = "1", features = ["full"] }
