[package]
name = "massa_sc_sdk"
version = "0.1.0"
edition = "2021"
publish = false

[dependencies]
prost = "0.13.5"
dlmalloc = { version = "0.2.14", features = ["global"] }
