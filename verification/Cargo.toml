[package]
name = "rivets_launcher"
version = "0.1.0"
edition = "2021"
publish = false

[dependencies]
configparser = "*"
anyhow = "*"
libloading = "*"
