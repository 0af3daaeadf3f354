[package]
name = "planar_geom"
version = "0.1.0"
edition = "2021"
publish = false

[dependencies]
geo = "0.26"
ndarray = "0.15"
