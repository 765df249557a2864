[package]
name = "schnorr_pok"
version = "0.1.0"
edition = "2021"
publish = false

[dependencies]
ark-bls12-381 = "*"
ark-ec = "*"
ark-ff = "*"
ark-serialize = "*"
ark-std = "*"
blake2 = "*"
zeroize = "*"
serde = { version = "*", features = ["derive"] }
serde_json = "*"
rmp-serde = "*"
