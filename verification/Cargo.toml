[package]
name = "minifilter_rs"
version = "0.1.0"
edition = "2021"
publish = false

[dependencies]
kodama = "0.2"
num-derive = "0.4"
num-traits = "0.2"
serde = { version = "1", features = ["derive"] }
sysinfo = { version = "0.29", default-features = false }
widestring = "1"
windows = { version = "0.48", features = ["Win32_Foundation", "Win32_System_Diagnostics_Debug", "Win32_System_ProcessStatus", "Win32_System_Threading"] }
windows-sys = { version = "0.48", features = ["Win32_Foundation", "Win32_Security", "Win32_Storage_FileSystem", "Win32_Storage_InstallableFileSystems", "Win32_System_IO"] }
