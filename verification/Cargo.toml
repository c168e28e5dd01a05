[package]
name = "rusty"
version = "0.1.0"
edition = "2021"
publish = false

[dependencies]
io-uring = "*"
libc = "*"
log = "0.4"
env_logger = "*"
