[package]
name = "j3ecs_netprint"
version = "0.2.0"
edition = "2021"
publish = false

[dependencies]
toml = "*"
windows-sys = { version = "*", features = ["Win32_Foundation", "Win32_Graphics_Gdi", "Win32_System_LibraryLoader", "Win32_UI_Input_KeyboardAndMouse", "Win32_UI_Shell", "Win32_UI_WindowsAndMessaging"] }
