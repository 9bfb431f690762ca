[package]
name = "filecoin_rs"
version = "0.1.0"
edition = "2021"
publish = false

[dependencies]
cid = "0.6"
multihash = "0.13"
