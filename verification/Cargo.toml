[package]
name = "rustsim"
version = "0.1.0"
edition = "2021"
publish = false

[dependencies]
anyhow = "1"
clap = "4"
colored = "2"
csv = "1"
env_logger = "0.10"
log = "0.4"
nalgebra = "0.32"
serde = { version = "1", features = ["derive"] }
serde_json = "1"
sprs = "0.11"
