[package]
name = "hide_desktop_apps"
version = "0.1.0"
edition = "2021"
publish = false

[dependencies]
global-hotkey = "0.6"
semver = "1"
sha2 = "0.10"
hex = "0.4"
serde = { version = "1", features = ["derive"] }
serde_json = "1"
toml = "0.8"
anyhow = "1"
chrono = { version = "0.4", default-features = false, features = ["clock"] }
ctrlc = "3"
zip = { version = "2", default-features = false, features = ["deflate"] }
self-replace = "1"
reqwest = { version = "0.12", default-features = false, features = ["blocking", "json"] }
winreg = "0.52"
windows = { version = "0.58", features = ["Win32_Foundation", "Win32_UI_WindowsAndMessaging", "Win32_System_Threading", "Win32_System_Pipes", "Win32_UI_Shell", "Win32_Graphics_Gdi", "Win32_System_LibraryLoader", "Data_Xml_Dom", "UI_Notifications"] }
tray-icon = { version = "0.19", default-features = false }

[dev-dependencies]
serde_json = "1"
