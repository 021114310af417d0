[package]
name = "fractal_tree"
version = "0.1.0"
edition = "2021"
publish = false

[dependencies]
eframe = { version = "=0.31.1", default-features = false, features = ["glow", "x11"] }
egui = { version = "=0.31.1", default-features = false }
emath = { version = "=0.31.1", default-features = false }
