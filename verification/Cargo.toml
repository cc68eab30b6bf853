[package]
name = "onyx_launcher"
version = "0.1.0"
edition = "2021"
publish = false

[dependencies]
anyhow = "1"
ico = "0.4"
image = { version = "0.25", default-features = false, features = ["png", "jpeg", "bmp", "ico"] }
serde = { version = "1", features = ["derive"] }
serde_json = "1"
windows = { version = "*", features = ["Win32_Foundation", "Win32_Graphics_Gdi", "Win32_Graphics_GdiPlus", "Win32_UI_WindowsAndMessaging", "Win32_System_LibraryLoader", "Win32_System_Threading", "Win32_UI_Shell", "Win32_System_Com", "Win32_System_DataExchange", "Win32_System_Memory", "Win32_System_Ole", "Win32_Storage_FileSystem"] }
winit = "0.30"
rfd = "*"
global-hotkey = "*"
eframe = { version = "*", default-features = false, features = ["glow", "default_fonts"] }
