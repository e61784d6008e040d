[package]
name = "watercontroller"
version = "0.1.0"
edition = "2021"
publish = false

[dependencies]
embedded-graphics = "0.8"
libm = "0.2"
