[package]
name = "cargo-deep-link"
version = "0.1.0"
edition = "2021"
publish = false

[dependencies]
dunce = "1"
windows-registry = "*"
windows-sys = { version = "*", features = ["Win32_Foundation", "Win32_Graphics_Gdi", "Win32_Security", "Win32_System_DataExchange", "Win32_System_LibraryLoader", "Win32_System_Threading", "Win32_UI_WindowsAndMessaging"] }
