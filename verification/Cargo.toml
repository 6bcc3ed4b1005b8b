[package]
name = "cargo_bump"
version = "0.1.0"
edition = "2021"
publish = false

[dependencies]
semver = "1"
clap = "2"
cargo_metadata = "*"
