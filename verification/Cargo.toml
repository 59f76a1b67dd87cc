[package]
name = "voxel_region"
version = "0.1.0"
edition = "2021"
publish = false

[dependencies]
valence = "0.1.0"
