[package]
name = "block_body_validator"
version = "0.1.0"
edition = "2021"
publish = false

[dependencies]
tari_crypto = "*"
tari_utilities = "*"
blake2 = "*"
digest = "*"
tokio = { version = "*", features = ["rt", "rt-multi-thread", "sync", "macros", "time"] }
futures = "*"

[dev-dependencies]
rand = "*"
