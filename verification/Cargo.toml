[package]
name = "speedtest"
version = "0.1.0"
edition = "2021"
publish = false

[dependencies]
hyper = "0.10"
getopts = "0.2"
log = "0.4"
env_logger = "0.11"
