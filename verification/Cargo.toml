[package]
name = "img2pdf"
version = "0.1.0"
edition = "2021"
publish = false

[dependencies]
image = "0.24"
lopdf = "0.31"
rayon = "1"
