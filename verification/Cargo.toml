[package]
name = "smartcard_apdu"
version = "0.1.0"
edition = "2021"
publish = false

[dependencies]
pcsc = "2"
napi = { version = "2", features = ["async"] }
napi-derive = "2"
