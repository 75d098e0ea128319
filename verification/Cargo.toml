[package]
name = "uchess_engine"
version = "0.1.0"
edition = "2021"
publish = false

[dependencies]
chess = "*"
rand = "0.8"
weighted_rand = "*"
base64 = "*"
