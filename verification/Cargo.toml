[package]
name = "proofbound_adapter"
version = "0.1.0"
edition = "2021"
publish = false

[dependencies]
sha2 = "0.10"
hex = "0.4"
semver = "1"
serde = { version = "1", features = ["derive"] }
serde_json = "1"
toml = "*"
tempfile = "3"
walkdir = "2"
thiserror = "*"
flate2 = "1"
tar = "0.4"
