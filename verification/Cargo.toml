[package]
name = "smultisig"
version = "0.1.0"
edition = "2021"
publish = false

[dependencies]
parity-scale-codec = "*"
blake2 = "*"
