[package]
name = "cfg_rust_features"
version = "0.1.0"
edition = "2021"
publish = false

[dependencies]
autocfg = "1"
version_check = "0.9"
