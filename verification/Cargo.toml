[package]
name = "edgetpu"
version = "0.1.0"
edition = "2021"
publish = false

[dependencies]
cpp = "0.5"
tflite = "*"
thiserror = "1"
