[package]
name = "wallet_core"
version = "0.1.0"
edition = "2021"
publish = false

[dependencies]
sha2 = "0.10"
hex = "0.4"
rand = "0.8"
ed25519-dalek = "2"
serde = { version = "1", features = ["derive"] }
serde_json = "1"
