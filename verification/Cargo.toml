[package]
name = "multi_party_schnorr"
version = "0.1.0"
edition = "2021"
publish = false

[dependencies]
curv-kzen = "=0.8.3"
round-based = "=0.1.7"
serde = { version = "=1.0.229", features = ["derive"] }
thiserror = "=1.0.69"
sha2 = "=0.9.9"
digest = "=0.9.0"
