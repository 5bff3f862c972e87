[package]
name = "fulon_am"
version = "0.1.0"
edition = "2021"
publish = false

[dependencies]
pgrx = "*"
