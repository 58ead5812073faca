[package]
name = "port_forwarder"
version = "0.1.0"
edition = "2021"
publish = false

[dependencies]
regex = "=1.13.1"
yaml-rust = "=0.4.5"
linked-hash-map = "=0.5.6"
env_logger = "=0.10.2"
log = "=0.4.34"
