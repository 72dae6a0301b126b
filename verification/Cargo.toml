[package]
name = "cargo_yaml"
version = "0.1.0"
edition = "2021"
publish = false

[dependencies]
toml = "0.8"
yaml-rust = "0.4"
