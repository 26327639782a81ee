[package]
name = "asset"
version = "0.1.0"
edition = "2021"
publish = false

[dependencies]
ark-ff = "0.4"
ark-ec = "0.4"
ark-serialize = "0.4"
ark-std = { version = "0.4", features = ["std"] }
ark-secp256k1 = "0.4"
ark-bls12-381 = "0.4"
ark-crypto-primitives = { version = "0.4", features = ["signature"] }
digest = "0.10"
sha3 = "0.10"
