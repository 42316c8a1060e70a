[package]
name = "lit_scene"
version = "0.1.0"
edition = "2021"
publish = false

[dependencies]
cgmath = "=0.17.0"
gl = "=0.14.0"
glfw = { version = "=0.63.0", default-features = false }
image = "=0.22.5"
