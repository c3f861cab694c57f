[package]
name = "harletty"
version = "0.1.0"
edition = "2021"
publish = false

[dependencies]
abi_stable = "0.11"
anyhow = "1"
indicatif = "0.17"
log = { version = "0.4", features = ["std"] }
serde = { version = "1", features = ["derive"] }
serde_yaml_ng = "0.10"
