[package]
name = "hrm"
version = "0.1.0"
edition = "2021"
publish = false

[dependencies]
env_logger = "*"
getopts = "0.2"
log = "0.4"
