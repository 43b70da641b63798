[package]
name = "dupscan"
version = "0.1.0"
edition = "2021"
publish = false

[dependencies]
walkdir = "2"
md-5 = "0.10"
trash = "5"
rayon = "1"

[dev-dependencies]
tempfile = "3"
