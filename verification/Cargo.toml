[package]
name = "workspyce"
version = "0.1.0"
edition = "2021"
publish = false

[dependencies]
regex = "*"
random-name = "*"
clap = { version = "*", features = ["derive"] }
