[package]
name = "tibetan-ewts-keyboard"
version = "0.1.0"
edition = "2021"
publish = false

[dependencies]
ewts = "*"
directories = "*"
serde = { version = "1", features = ["derive"] }
toml = "*"
self_update = "*"
image = { version = "*", default-features = false, features = ["png"] }
tray-icon = "*"
windows-sys = { version = "*", features = ["Win32_Foundation", "Win32_UI_Input_KeyboardAndMouse", "Win32_UI_WindowsAndMessaging"] }
winit = { version = "0.30", default-features = false }
