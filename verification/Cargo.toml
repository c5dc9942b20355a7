[package]
name = "julia_nft"
version = "0.1.0"
edition = "2021"
publish = false

[dependencies]
alloy-primitives = "=0.3.3"
alloy-sol-types = "=0.3.1"
base64 = "=0.21.7"
image = { version = "=0.24.9", default-features = false, features = ["png"] }
rand = { version = "=0.8.8", default-features = false, features = ["small_rng"] }
ruint = { version = "=1.10.1", default-features = false }
stylus-sdk = "=0.4.3"
wee_alloc = "=0.4.5"
