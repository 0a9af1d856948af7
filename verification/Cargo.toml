[package]
name = "suiji_potplayer"
version = "0.1.0"
edition = "2021"
publish = false

[dependencies]
rand = "=0.8.8"
serde = { version = "=1.0.229", features = ["derive"] }
serde_json = "=1.0.154"
image = { version = "=0.25.10", default-features = false, features = ["ico", "png", "jpeg"] }
eframe = { version = "=0.31.1", default-features = false, features = ["default_fonts", "glow", "x11"] }
rfd = "=0.15.4"
windows = { version = "=0.58.0", features = ["Win32_Foundation", "Win32_System_Threading", "Win32_UI_WindowsAndMessaging", "Win32_Graphics_Gdi"] }
