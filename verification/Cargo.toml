[package]
name = "window-switcher"
version = "1.0.0"
edition = "2021"
publish = false

[dependencies]
anyhow = "=1.0.104"
indexmap = "=2.14.2"
log = "=0.4.35"
parking_lot = "=0.12.5"
rust-ini = "=0.21.3"
windows = { version = "=0.61.3", features = ["Win32_Foundation", "Win32_Globalization", "Win32_Graphics_Direct2D", "Win32_Graphics_Direct2D_Common", "Win32_Graphics_DirectWrite", "Win32_Graphics_Dxgi_Common", "Win32_Graphics_Gdi", "Win32_Security", "Win32_Storage_FileSystem", "Win32_System_LibraryLoader", "Win32_System_SystemInformation", "Win32_System_Threading", "Win32_UI_Accessibility", "Win32_UI_Controls", "Win32_UI_HiDpi", "Win32_UI_Input_KeyboardAndMouse", "Win32_UI_Shell", "Win32_UI_WindowsAndMessaging"] }
