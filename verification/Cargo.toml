[package]
name = "rust_raytracer"
version = "0.1.0"
edition = "2021"
publish = false

[dependencies]
bvh = "0.10"
clap = { version = "4", features = ["derive"] }
image = { version = "0.25", default-features = false, features = ["png", "jpeg", "hdr"] }
indicatif = "0.17"
lazy_static = "1"
nalgebra = "0.33"
num-traits = "0.2"
oidn = "2"
rand = "0.9"
sobol = "1"
tobj = "4"
yaml-rust = "0.4"
