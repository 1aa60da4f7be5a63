[package]
name = "nature"
version = "0.1.0"
edition = "2021"
publish = false

[dependencies]
wgpu = "*"
rand = "0.7"
zerocopy = { version = "0.7", features = ["derive"] }
nalgebra-glm = "*"
