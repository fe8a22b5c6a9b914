[package]
name = "synacor_debugger"
version = "0.1.0"
edition = "2021"
publish = false

[dependencies]
byteorder = "1"
env_logger = "*"
error-chain = "*"
log = "*"
try_from = "*"
