[package]
name = "loda_rust"
version = "0.1.0"
edition = "2021"
publish = false

[dependencies]
anyhow = "1"
bastion = "0.4"
csv = "1"
num-bigint = "0.4"
num-traits = "0.2"
rand = "0.8"
serde = { version = "1", features = ["derive"] }
