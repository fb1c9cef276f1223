[package]
name = "egui_rad_builder"
version = "0.1.0"
edition = "2021"
publish = false

[dependencies]
chrono = "0.4"
egui = "0.33"
eframe = { version = "0.33", default-features = false, features = ["default_fonts", "glow", "x11"] }
egui_extras = { version = "0.33", default-features = false, features = ["datepicker"] }
rfd = { version = "0.15", default-features = false, features = ["gtk3"] }
serde = { version = "1", features = ["derive"] }
serde_json = "1"
syntect = { version = "5", default-features = false, features = ["default-fancy"] }
