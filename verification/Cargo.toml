[package]
name = "perceptron"
version = "0.1.0"
edition = "2021"
publish = false

[dependencies]
image = { version = "0.24", default-features = false, features = ["jpeg"] }
imageproc = "0.23"
ndarray = "0.15"
rand = "0.8"
rand_chacha = "0.3"
rusttype = "0.9"
