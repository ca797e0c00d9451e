[package]
name = "retroimg"
version = "0.1.0"
edition = "2021"
publish = false

[dependencies]
exoquant = "*"
image = "*"
num-integer = "*"
clap = { version = "*", features = ["derive"] }
