[package]
name = "hkdf_core"
version = "0.1.0"
edition = "2021"
publish = false

[dependencies]
aws-lc-sys = "*"
hmac = "0.12"
sha1 = "0.10"
sha2 = "0.10"

[dev-dependencies]
hkdf = "0.12"
