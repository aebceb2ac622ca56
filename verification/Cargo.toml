[package]
name = "alidraw"
version = "0.1.0"
edition = "2021"
publish = false

[dependencies]
eframe = { version = "*", default-features = false, features = ["default_fonts", "glow", "x11"] }
image = { version = "*", default-features = false, features = ["png", "jpeg"] }
lucide-icons = "*"
rfd = "*"
thiserror = "*"
tiny-skia = "*"
winit = "*"
