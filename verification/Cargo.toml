[package]
name = "moturus_rt"
version = "0.1.0"
edition = "2021"
publish = false

[dependencies]
moto-sys = "=0.1.1"
frusa = "=0.1.3"
