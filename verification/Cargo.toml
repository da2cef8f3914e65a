[package]
name = "rustic_zen"
version = "0.2.0"
edition = "2021"
publish = false

[dependencies]
pcg_rand = "=0.13.0"
rand = "=0.8.8"
