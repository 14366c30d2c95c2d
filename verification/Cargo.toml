[package]
name = "valkey_array"
version = "0.1.0"
edition = "2021"
publish = false

[dependencies]
valkey-module = "*"
fast-glob = "*"
regex = "1"
