[package]
name = "photorotate"
version = "0.1.0"
edition = "2021"
publish = false

[dependencies]
kamadak-exif = "0.5"
gtk4 = "*"
