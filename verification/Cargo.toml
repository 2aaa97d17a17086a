[package]
name = "cthash"
version = "0.1.0"
edition = "2021"
publish = false

[dev-dependencies]
md-5 = "*"
md4 = "*"
sha1 = "*"
sha2 = "*"
sha3 = "*"
