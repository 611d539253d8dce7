[package]
name = "mesh"
version = "0.1.0"
edition = "2021"
publish = false

[dependencies]
arrayvec = "*"
glam = "*"
meshopt = "*"
rayon = "*"
spatialtree = "*"
stl_io = "*"
