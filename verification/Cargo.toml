[package]
name = "cargo_target_dep"
version = "0.1.0"
edition = "2021"
publish = false

[dependencies]
glob = "*"
