[package]
name = "x3x"
version = "0.1.0"
edition = "2021"
publish = false

[dependencies]
anyhow = "1"
argon2 = "0.5"
getrandom = "0.3"
sha2 = "0.10"
sha3 = "0.10"
tempfile = "3"
zeroize = "1"
