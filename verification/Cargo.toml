[package]
name = "tiffin"
version = "0.1.0"
edition = "2021"
publish = false

[dependencies]
nix = "=0.26.4"
sys-mount = { version = "=3.1.0", default-features = false }
