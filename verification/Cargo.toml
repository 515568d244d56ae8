[package]
name = "cxxpect_editor"
version = "0.1.0"
edition = "2021"
publish = false

[dependencies]
serde = { version = "1", features = ["derive"] }
eframe = { version = "*", default-features = false, features = ["default_fonts", "glow", "persistence", "x11"] }
rfd = "*"
