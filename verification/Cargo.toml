[package]
name = "theramin"
version = "0.1.0"
edition = "2021"
publish = false

[dependencies]
midir = "*"
tokio = { version = "*", features = ["sync", "rt-multi-thread", "macros"] }
