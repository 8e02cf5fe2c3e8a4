[package]
name = "seed_bundle"
version = "0.1.0"
edition = "2021"
publish = false

[dependencies]
sodoken = "=0.1.0"
serde = "=1.0.229"
rmp-serde = "=1.3.1"
