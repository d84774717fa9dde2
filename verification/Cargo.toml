[package]
name = "antarc_protocol"
version = "0.1.0"
edition = "2021"
publish = false

[dependencies]
crc32fast = "1"
thiserror = "1"
log = "0.4"
env_logger = "0.9"
