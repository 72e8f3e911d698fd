[package]
name = "pxforge"
version = "0.1.0"
edition = "2021"
publish = false

[dependencies]
anyhow = "1"
clap = { version = "4", features = ["derive"] }
image = "0.24"
indicatif = "0.17"
rayon = "1"
walkdir = "2"
