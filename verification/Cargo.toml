[package]
name = "geomcanvas"
version = "0.1.0"
edition = "2021"
publish = false

[dependencies]
euclid = "0.22"
glium = "0.29"
image = { version = "0.23", default-features = false, features = ["png"] }
imgui = "0.7"
imgui-glium-renderer = "0.7"
imgui-winit-support = "0.7"
itertools = "0.10"
log = "0.4"
