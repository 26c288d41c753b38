[package]
name = "mandelbrot_view"
version = "0.1.0"
edition = "2021"
publish = false

[dependencies]
eframe = { version = "0.29", default-features = false, features = ["default_fonts", "glow", "x11"] }
egui = "0.29"
image = { version = "0.25", default-features = false }
num-complex = "0.4"
