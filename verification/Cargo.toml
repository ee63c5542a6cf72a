[package]
name = "learn_opengl"
version = "0.1.0"
edition = "2021"
publish = false

[dependencies]
rand = "0.8"
image = "0.20"
tobj = "0.1"
cgmath = "0.17"
gl = "0.14"
glfw = { version = "0.29", default-features = false }
num = "0.2"
