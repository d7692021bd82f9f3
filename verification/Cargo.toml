[package]
name = "scene3d"
version = "0.1.0"
edition = "2021"
publish = false

[dependencies]
rand = "0.8"
kira = "0.5"
