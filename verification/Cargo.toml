[package]
name = "fovea_display"
version = "0.3.0"
edition = "2021"
publish = false

[dependencies]
fovea = "*"
log = "0.4"
softbuffer = "0.4"
winit = "0.30"
