[package]
name = "sabiptrace"
version = "0.1.0"
edition = "2021"
publish = false

[dependencies]
either = "1"
env_logger = "*"
exr = "*"
getopts = "0.2"
log = "0.4"
nalgebra = "*"
num_cpus = "1"
rand = { version = "0.8", features = ["small_rng"] }
