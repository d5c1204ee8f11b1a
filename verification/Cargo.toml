[package]
name = "stronghold"
version = "0.1.0"
edition = "2021"
publish = false

[dependencies]
actix = "=0.13.5"
iota-crypto = { version = "=0.12.1", features = ["hmac", "random", "sha"] }
stronghold_engine = "=0.5.3"
thiserror = "=1.0.69"
zeroize = "=1.9.1"
