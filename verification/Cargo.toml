[package]
name = "endless"
version = "0.1.0"
edition = "2021"
publish = false

[dependencies]
rand = "0.8"
uuid = { version = "1", features = ["v4"] }
pancurses = "*"
