[package]
name = "rust_install"
version = "0.1.0"
edition = "2021"
publish = false

[dependencies]
flate2 = "1.0"
tar = "0.4"
