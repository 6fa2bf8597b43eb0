[package]
name = "wrapper"
version = "0.1.0"
edition = "2021"
publish = false

[dependencies]
regex = "1"
zccache-depgraph = "*"
log = "0.4"
env_logger = "*"
