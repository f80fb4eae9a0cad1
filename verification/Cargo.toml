[package]
name = "rustos"
version = "0.1.0"
edition = "2021"
publish = false

[dependencies]
miniz_oxide = "0.8"
x86_64 = { version = "0.15", default-features = false, features = ["instructions"] }
spin = "0.9"
