[package]
name = "cosine_sim"
version = "0.1.0"
edition = "2021"
publish = false

[dependencies]
rayon = "1"
ndarray = "0.16"
ndarray-rand = "0.15"
