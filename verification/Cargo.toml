[package]
name = "motd"
version = "0.1.0"
edition = "2021"
publish = false

[dependencies]
base64 = "*"
colored = "*"
crossterm = "*"
gamedig = "*"
image = "*"
serde_json = "*"
unicode-width = "*"
