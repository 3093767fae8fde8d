[package]
name = "rusty_core"
version = "0.1.0"
edition = "2021"
publish = false

[dependencies]
blake3 = "1"
sha2 = "0.10"
sha1 = "0.10"
ripemd = "0.1"
ed25519-dalek = "1"
primitive-types = "0.12"
hex = "0.4"
log = "0.4"
tracing = "0.1"
serde = { version = "1", features = ["derive"] }
bincode = "1"
thiserror = "1"
rand = "0.8"
