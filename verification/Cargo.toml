[package]
name = "smart_block"
version = "0.1.0"
edition = "2021"
publish = false

[dependencies]
kd-tree = "=0.6.2"
rand = "=0.8.8"
typenum = "=1.20.1"
