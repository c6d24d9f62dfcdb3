[package]
name = "slingshot"
version = "0.1.0"
edition = "2021"
publish = false

[dependencies]
base64 = "*"
crossterm = "*"
syntect = { version = "*", default-features = false, features = ["default-fancy"] }
