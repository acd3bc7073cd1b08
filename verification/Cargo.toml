[package]
name = "mosaic_core"
version = "0.1.0"
edition = "2021"
publish = false

[dependencies]
base64 = "0.22"
blake3 = "1"
digest = "0.10"
ed25519-dalek = { version = "2", features = ["digest", "rand_core"] }
rand = "0.8"
