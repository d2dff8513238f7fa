[package]
name = "ray_tracer_core"
version = "0.1.0"
edition = "2021"
publish = false

[dependencies]
rand = "0.8"
minifb = "*"
rayon = "*"
num_cpus = "*"
