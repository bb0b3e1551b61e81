[package]
name = "mm_core"
version = "0.1.0"
edition = "2021"
publish = false

[dependencies]
market-maker-rs = "*"
rust_decimal = "*"
rustc-hash = "*"
