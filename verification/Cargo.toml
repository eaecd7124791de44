[package]
name = "zeroql"
version = "0.1.0"
edition = "2021"
publish = false

[dependencies]
regex-syntax = "=0.8.11"

[dev-dependencies]
regex = "1"
