[package]
name = "rust2rpm"
version = "0.1.0"
edition = "2021"
publish = false

[dependencies]
semver-parser = "0.7"
clap = "*"
toml = "*"
