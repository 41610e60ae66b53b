[package]
name = "peernet"
version = "0.1.0"
edition = "2021"
publish = false

[dependencies]
rand = "0.8"
serde = { version = "1", features = ["derive"] }
serde_json = "1"
semver = "1"
smol = "2"
futures-util = "0.3"
log = "0.4"
