[package]
name = "spiral_net"
version = "0.1.0"
edition = "2021"
publish = false

[dependencies]
ndarray = "0.14"
ndarray-rand = "0.13"
rand = "0.8"
lazy_static = "1"
