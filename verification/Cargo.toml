[package]
name = "raytrace"
version = "0.1.0"
edition = "2021"
publish = false

[dependencies]
clap = { version = "4", features = ["derive"] }
rand = "0.8"
rand_xoshiro = "0.6"
rayon = "1"
