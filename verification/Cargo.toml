[package]
name = "halo"
version = "0.1.0"
edition = "2021"
publish = false

[dependencies]
eframe = { version = "=0.37.0", default-features = false, features = ["default_fonts", "glow", "x11", "wayland"] }
sysinfo = "=0.38.4"
serde = { version = "=1.0.229", features = ["derive"] }
toml = "=1.1.8"
image = { version = "=0.25.10", default-features = false, features = ["png"] }
libc = "=0.2.191"
gtk = "=0.18.2"
tray-icon = "=0.26.1"
