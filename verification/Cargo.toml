[package]
name = "smitten"
version = "0.1.0"
edition = "2021"
publish = false

[dependencies]
fontdue = "0.8"
glow = "0.11"
glutin = "0.28"
png = "0.17"

[dependencies.image]
version = "0.24"
default-features = false
features = ["png"]
