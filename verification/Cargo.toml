[package]
name = "expectrl"
version = "0.1.0"
edition = "2021"
publish = false

[dependencies]
regex = "=1.13.1"
ptyprocess = "=0.5.0"
nix = "=0.26.4"
futures-lite = "=1.13.0"
async-io = "=1.13.0"
