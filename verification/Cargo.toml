[package]
name = "drop-transfer"
version = "0.1.0"
edition = "2021"
publish = false

[dependencies]
infer = "*"
libc = "0.2"
sha2 = "0.10"
