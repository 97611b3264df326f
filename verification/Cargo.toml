[package]
name = "memdiff"
version = "0.1.0"
edition = "2021"
publish = false

[dependencies]
quickcheck = "1"
log = "*"
env_logger = "*"
