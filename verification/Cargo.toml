[package]
name = "rlock"
version = "0.1.0"
edition = "2021"
publish = false

[dependencies]
rust-crypto = "=0.2.36"
x11 = { version = "=2.21.0", features = ["xlib"] }
libc = "=0.2.191"
docopt = "=1.1.1"
