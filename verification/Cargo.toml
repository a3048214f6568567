[package]
name = "numutil"
version = "0.1.0"
edition = "2021"
publish = false

[dependencies]
num = "*"

[dev-dependencies]
is_close = "*"
