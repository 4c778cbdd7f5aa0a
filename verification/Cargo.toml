[package]
name = "inference_engine_rust"
version = "0.1.0"
edition = "2021"
publish = false

[dependencies]
libc = "=0.2.191"
ndarray = "=0.15.6"
num = "=0.4.3"
