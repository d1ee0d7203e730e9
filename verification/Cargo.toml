[package]
name = "edgelink"
version = "0.1.0"
edition = "2021"
publish = false

[dependencies]
url = "2"
qrcode = { version = "*", default-features = false, features = ["svg"] }
serde_json = "1"
