[package]
name = "secure_channel"
version = "0.1.0"
edition = "2021"
publish = false

[dependencies]
ring = "*"
udt = "*"

[dev-dependencies]
rand = "0.8"
