[package]
name = "rlox"
version = "0.1.0"
edition = "2021"
publish = false

[dependencies]
miette = { version = "*", features = ["fancy"] }
thiserror = "*"
