[package]
name = "pj"
version = "0.1.0"
edition = "2021"
publish = false

[dependencies]
regex = "1"
anyhow = "1"
crossbeam = "0.8"
rayon = "1"
structopt = "0.3"
