[package]
name = "enigma"
version = "0.1.0"
edition = "2021"
publish = false

[dependencies]
phf = "=0.14.0"
phf_generator = "=0.14.0"
