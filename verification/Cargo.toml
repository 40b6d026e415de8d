[package]
name = "remap_config"
version = "0.1.0"
edition = "2021"
publish = false

[dependencies]
indexmap = "1"
linux-input = "*"
toml = "0.5"
