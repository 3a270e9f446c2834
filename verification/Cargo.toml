[package]
name = "dsh_launcher"
version = "5.0.0"
edition = "2021"
publish = false

[dependencies]
serde = { version = "=1.0.229", features = ["derive"] }
serde_json = "=1.0.154"
toml = "=1.1.8"
dirs = "=7.0.0"
anyhow = "=1.0.104"
tao = "=0.37.2"
wry = "=0.57.1"
muda = "=0.21.2"
tray-icon = "=0.26.1"
windows = { version = "=0.62.2", features = ["Win32_Foundation", "Win32_System_Threading", "Win32_UI_WindowsAndMessaging", "Win32_UI_Shell", "Win32_System_SystemInformation", "Win32_System_Console", "Win32_Storage_FileSystem", "Win32_System_Registry", "Win32_Graphics_Dwm", "Win32_System_Diagnostics_Debug", "Win32_System_Diagnostics_ToolHelp", "Win32_System_JobObjects", "Win32_NetworkManagement_IpHelper", "Win32_Networking_WinSock", "Win32_System_ProcessStatus", "Win32_Security"] }
