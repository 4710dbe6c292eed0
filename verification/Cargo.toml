[package]
name = "self_chain_core"
version = "0.1.0"
edition = "2021"
publish = false

[dependencies]
sha2 = "*"
sha3 = "*"
hmac = "*"
hex = "*"
rand = "*"
ed25519-dalek = "*"
zeroize = "*"
serde = { version = "*", features = ["derive"] }
serde_json = "*"
anyhow = "*"
thiserror = "*"
tokio = { version = "*", features = ["sync", "rt", "macros"] }
tracing = "*"
prometheus = "*"
