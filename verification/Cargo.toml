[package]
name = "double_pendulum"
version = "0.1.0"
edition = "2021"
publish = false

[dependencies]
colors-transform = "*"
image = { version = "*", default-features = false, features = ["png"] }
imageproc = { version = "*", default-features = false }
piston = "*"
piston2d-graphics = "*"
piston2d-opengl_graphics = "*"
pistoncore-glutin_window = "*"
