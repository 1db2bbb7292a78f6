[package]
name = "quadrature"
version = "0.1.0"
edition = "2021"
publish = false

[dependencies]
GSL-sys = "*"
