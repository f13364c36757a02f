[package]
name = "inzone-h9-gen1-headset-status"
version = "0.1.0"
edition = "2021"
publish = false

[dependencies]
serialport = { version = "4", default-features = false }
tray-icon = "*"
windows-sys = { version = "*", features = ["Win32_Foundation", "Win32_Globalization", "Win32_System_Registry", "Win32_System_Console", "Win32_System_Threading", "Win32_UI_Shell", "Win32_UI_WindowsAndMessaging", "Win32_UI_HiDpi", "Win32_Graphics_Gdi", "Win32_Devices_DeviceAndDriverInstallation"] }
