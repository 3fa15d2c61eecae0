[package]
name = "life_kernel"
version = "0.1.0"
edition = "2021"

[dependencies]
oorandom = "11.1"
