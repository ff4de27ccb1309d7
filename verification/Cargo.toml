[package]
name = "share_home"
version = "0.1.0"
edition = "2021"
publish = false

[dependencies]
multipart = { version = "*", default-features = false, features = ["server"] }
chrono = "*"
dirs = "*"
