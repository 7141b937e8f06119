[package]
name = "trueseal-noise"
version = "0.1.0"
edition = "2021"
publish = false

[dependencies]
blake2 = "0.10"
chacha20poly1305 = "0.10"
rand = "0.8"
x25519-dalek = { version = "2", features = ["static_secrets"] }
thiserror = "1"
uniffi = { version = "0.28", default-features = false }

[dev-dependencies]
snow = "0.9"
