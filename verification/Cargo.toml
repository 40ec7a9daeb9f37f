[package]
name = "remu"
version = "0.1.0"
edition = "2021"
publish = false

[dependencies]
array2d = "0.3"
bit-array = "0.4"
rand = "0.9"
termcolor = "1"
typenum = "1"
winit = "0.30"
