[package]
name = "winapi_gen"
version = "0.1.0"
edition = "2021"
publish = false

[dependencies]
env_logger = "*"
failure = "0.1"
lazy_static = "1"
log = "0.4"
