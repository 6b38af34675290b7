[package]
name = "byote"
version = "0.1.0"
edition = "2021"
publish = false

[dependencies]
libc = "*"
termios = "*"
nix = "*"
lazy_static = "*"
simple-error = "*"
