[package]
name = "command_palette"
version = "0.1.0"
edition = "2021"
publish = false

[dependencies]
serde = { version = "=1.0.229", features = ["derive"] }
toml = { version = "=0.8.23", features = ["preserve_order"] }
log = "=0.4.34"
env_logger = "=0.11.11"
raw-window-handle = "=0.6.2"
eframe = { version = "=0.29.1", default-features = false, features = ["default_fonts", "glow", "x11"] }
windows = { version = "=0.52.0", features = ["Win32_Foundation", "Win32_Graphics_Dwm", "Win32_System_Com", "Win32_System_ProcessStatus", "Win32_System_Threading", "Win32_UI_Accessibility", "Win32_UI_Input_KeyboardAndMouse", "Win32_UI_WindowsAndMessaging"] }
