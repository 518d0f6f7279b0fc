[package]
name = "ascii_art"
version = "0.1.0"
edition = "2021"
publish = false

[dependencies]
crossterm = "0.28"
getopts = "0.2"
image = { version = "0.25", default-features = false, features = ["jpeg", "png", "gif", "bmp"] }
