[package]
name = "arbishield"
version = "0.1.0"
edition = "2021"
publish = false

[dependencies]
alloy-primitives = "=0.8.20"
alloy-sol-types = "=0.8.20"
