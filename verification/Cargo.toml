[package]
name = "ullage"
version = "0.1.0"
edition = "2021"
publish = false

[dependencies]
async-trait = "=0.1.92"
chrono = "=0.4.45"
clap = { version = "=4.6.7", features = ["derive"] }
crossterm = "=0.28.1"
libc = "=0.2.191"
ratatui = "=0.29.0"
serde = { version = "=1.0.229", features = ["derive"] }
serde_json = "=1.0.154"
thiserror = "=1.0.69"
unicode-width = "=0.2.0"
winapi = { version = "=0.3.9", features = ["combaseapi", "oaidl", "objbase", "oleauto", "taskschd", "unknwnbase", "winerror", "wtypes", "wtypesbase"] }
windows-sys = { version = "=0.61.2", features = ["Win32_Foundation", "Win32_Security", "Win32_Storage_FileSystem", "Win32_System_Pipes", "Win32_System_SystemInformation", "Win32_System_Threading"] }
