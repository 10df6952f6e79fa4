[package]
name = "interstellare_simulation"
version = "0.1.0"
edition = "2021"
publish = false

[dependencies]
crossbeam-channel = "*"
get_if_addrs = "*"
nalgebra = "*"
regex = "*"
webbrowser = "*"
