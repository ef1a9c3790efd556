[package]
name = "softfido"
version = "0.1.0"
edition = "2021"
publish = false

[dependencies]
cryptoki = "*"

[dev-dependencies]
serde_cbor = "*"
