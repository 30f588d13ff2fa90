[package]
name = "unidpp_kit"
version = "0.1.0"
edition = "2021"
publish = false

[dependencies]
ed25519-dalek = "2"
sha2 = "0.10"
serde_json = "1"
serde_yaml = "0.9"
