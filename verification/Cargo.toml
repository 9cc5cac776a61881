[package]
name = "teacup"
version = "0.1.0"
edition = "2021"
publish = false

[dependencies]
anyhow = "1"
cgmath = "0.18"
glfw = "*"
pollster = "*"
rayon = "1"
tinycolors = "0.1"
tokio = { version = "1", features = ["sync"] }
wgpu = "25"
wgsl-inline = "*"
