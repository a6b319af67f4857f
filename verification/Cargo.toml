[package]
name = "noise_field"
version = "0.1.0"
edition = "2021"
publish = false

[dependencies]
xxhash-rust = { version = "*", features = ["xxh64"] }
image = { version = "*", default-features = false, features = ["png"] }
