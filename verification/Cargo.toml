[package]
name = "permission"
version = "0.1.0"
edition = "2021"
publish = false

[dependencies]
near-sdk = { version = "=5.29.1", features = ["legacy", "non-contract-usage", "unstable"] }
hex = "=0.4.3"

[dev-dependencies]
ed25519-dalek = "=2.2.0"
k256 = "=0.13.4"
