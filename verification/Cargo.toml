[package]
name = "neurocore"
version = "0.1.0"
edition = "2021"
publish = false

[dependencies]
vulkano = "0.34"
rand = "0.8"
once_cell = "1"
