[package]
name = "florui_platform"
version = "0.1.0"
edition = "2021"
publish = false

[dependencies]
serde = { version = "=1.0.229", features = ["derive"] }
winit = "=0.30.13"
wgpu = "=29.0.4"
pollster = "=0.4.0"
arboard = "=3.7.0"
accesskit = "=0.25.2"
tiny-skia = "=0.11.4"
windows-sys = { version = "*", features = ["Win32_Foundation", "Win32_Graphics_Dwm", "Win32_UI_WindowsAndMessaging"] }
