[package]
name = "rgscan"
version = "0.1.0"
edition = "2021"
publish = false

[dependencies]
image = { version = "0.25", default-features = false, features = ["png"] }
indicatif = "0.17"
rand = "0.8"
