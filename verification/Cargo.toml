[package]
name = "fractal_curves"
version = "0.1.0"
edition = "2021"
publish = false

[dependencies]
rayon = "*"
log = "*"
env_logger = "*"
clap = { version = "*", features = ["derive"] }
