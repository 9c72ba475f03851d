[package]
name = "voxel_scene"
version = "0.1.0"
edition = "2021"
publish = false

[dependencies]
pathfinding = "4"
block-mesh = "0.2"
noise = "0.9"
glam = "*"
fast_poisson = "1"
rand = "0.9"
