[package]
name = "ws-hotel"
version = "0.1.0"
edition = "2021"
publish = false

[dependencies]
ws = "=0.9.2"

[dev-dependencies]
mio = "=0.6.23"
