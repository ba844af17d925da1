[package]
name = "oni2_assets"
version = "0.1.0"
edition = "2021"
publish = false

[dependencies]
hound = "3.5"
image = { version = "0.25", default-features = false, features = ["tga"] }
