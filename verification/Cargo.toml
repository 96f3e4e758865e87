[package]
name = "enigma"
version = "0.1.0"
edition = "2021"

[dependencies]
regex = "1"
clap = { version = "3.2", features = ["derive"] }
