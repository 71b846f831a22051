[package]
name = "fips"
version = "0.1.0"
edition = "2021"
publish = false

[dependencies]
chacha20poly1305 = "0.10"
hkdf = "0.12"
rand = "0.10"
secp256k1 = "0.30"
sha2 = "0.10"
tokio = { version = "1", features = ["net", "rt", "sync", "time", "macros"] }
zeroize = "1"
