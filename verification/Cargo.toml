[package]
name = "spectro_cam_rs"
version = "0.1.0"
edition = "2021"
publish = false

[dependencies]
biquad = "=0.4.2"
confy = "0.5"
csv = "=1.4.0"
egui = "=0.17.0"
egui_glium = "=0.17.0"
epi = "=0.17.0"
flume = "=0.10.14"
glium = "=0.31.0"
log = "=0.4.34"
nokhwa = { version = "=0.9.4", default-features = false, features = ["input-v4l"] }
rayon = "=1.12.0"
serde = { version = "=1.0.229", features = ["derive"] }
v4l = "=0.12.1"
