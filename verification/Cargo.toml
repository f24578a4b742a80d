[package]
name = "dspython"
version = "0.1.0"
edition = "2021"
publish = false

[dependencies]
rustpython-parser = "*"
clap = "*"
either = "*"
inkwell = "*"
