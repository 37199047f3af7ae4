[package]
name = "faisca"
version = "0.1.0"
edition = "2021"
publish = false

[dependencies]
ash = "0.37"
log = "0.4"
thiserror = "1.0"
env_logger = "0.10"
