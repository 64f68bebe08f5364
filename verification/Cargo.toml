[package]
name = "voxel_cone_tracing"
version = "0.1.0"
edition = "2021"
publish = false

[dependencies]
c_str_macro = "1"
cgmath = "0.18"
egui_glfw_gl = "*"
gl = "0.14"
glam = "*"
glfw = "*"
image = "*"
log = "0.4"
memoffset = "0.9"
once_cell = "1"
ron = "*"
serde = { version = "1", features = ["derive"] }
simple_logger = "*"
structopt = "0.3"
tobj = "*"
