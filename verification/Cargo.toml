[package]
name = "keyboard_cursor"
version = "0.1.0"
edition = "2021"
publish = false

[dependencies]
eframe = { version = "0.31", default-features = false, features = ["glow", "default_fonts", "x11", "wayland"] }
egui = { version = "0.31", default-features = false }
enigo = "0.3"
