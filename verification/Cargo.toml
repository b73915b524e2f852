[package]
name = "alpha_keyring"
version = "0.1.0"
edition = "2021"
publish = false

[dependencies]
rand = "0.7"
ring = "0.16"
x25519-dalek = "1"
yasna = "0.3"
