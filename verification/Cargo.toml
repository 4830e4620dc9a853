[package]
name = "gui_bridge"
version = "0.1.0"
edition = "2021"
publish = false

[dependencies]
egui = "0.27"
ggez = { version = "0.9", default-features = false }
winit = "0.28"
