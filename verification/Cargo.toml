[package]
name = "click_through"
version = "0.1.0"
edition = "2021"
publish = false

[dependencies]
resvg = { version = "0.45", default-features = false }
winit = "0.30"
x11rb = { version = "0.13", features = ["shape"] }
raw-window-handle = "0.6"
tray-icon = "0.19"
windows-sys = { version = "0.59", features = ["Win32_Foundation", "Win32_Graphics_Gdi", "Win32_UI_WindowsAndMessaging"] }
