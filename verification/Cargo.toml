[package]
name = "mkdata"
version = "0.1.0"
edition = "2021"
publish = false

[dependencies]
rand = "*"
fake = "*"
csv = "*"
colored = "*"
clap = { version = "*", features = ["derive"] }
