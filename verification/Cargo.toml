[package]
name = "fire_compiler"
version = "0.1.0"
edition = "2021"

[dev-dependencies]
regex = "1"
formatted_debug = "*"
