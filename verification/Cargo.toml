[package]
name = "ceyrad"
version = "0.1.0"
edition = "2021"
publish = false

[dependencies]
serde = { version = "=1.0.229", features = ["derive"] }
serde_json = "=1.0.154"
muda = "=0.21.2"
tray-icon = "=0.26.1"
windows-future = "=0.3.2"
windows = { version = "=0.62.2", features = [
    "Foundation",
    "Foundation_Collections",
    "Media_Control",
    "Storage_Streams",
    "Web_Http",
    "Web_Http_Headers",
    "Win32_Foundation",
    "Win32_Globalization",
    "Win32_Security",
    "Win32_Storage_FileSystem",
    "Win32_System_Com",
    "Win32_System_Console",
    "Win32_System_IO",
    "Win32_System_Registry",
    "Win32_System_SystemInformation",
    "Win32_System_Threading",
    "Win32_UI_HiDpi",
    "Win32_UI_Input_KeyboardAndMouse",
    "Win32_UI_Shell",
    "Win32_UI_WindowsAndMessaging",
] }
