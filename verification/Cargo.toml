[package]
name = "ainukey"
version = "0.1.0"
edition = "2021"
publish = false

[dependencies]
ainconv = "=0.2.0"
serde = { version = "=1.0.229", features = ["derive"] }
toml = "=0.8.23"
windows = { version = "0.60", features = ["Win32_Foundation", "Win32_Graphics_Gdi", "Win32_System_Com", "Win32_System_LibraryLoader", "Win32_System_Ole", "Win32_System_Registry", "Win32_System_SystemServices", "Win32_System_Variant", "Win32_UI_Input_KeyboardAndMouse", "Win32_UI_TextServices", "Win32_UI_WindowsAndMessaging"] }
