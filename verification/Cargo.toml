[package]
name = "json_utils"
version = "0.2.0"
edition = "2021"
publish = false

[dependencies]
rustc-serialize = "0.3"
