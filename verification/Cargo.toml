[package]
name = "noise_gen"
version = "0.1.0"
edition = "2021"
publish = false

[dependencies]
rand = "0.8"
hound = "3.5"
rustc_apfloat = "0.2"
