[package]
name = "hamming"
version = "0.1.0"
edition = "2021"
publish = false

[dev-dependencies]
quickcheck = "0.9"
rand = "0.7"
