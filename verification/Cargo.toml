[package]
name = "sysproxy"
version = "0.1.0"
edition = "2021"
publish = false

[dependencies]
anyhow = "=1.0.104"
ctrlc = "=3.5.2"
dirs = "=6.0.0"
nix = { version = "=0.30.1", features = ["user", "fs", "inotify", "poll", "net", "event"] }
pico-args = "=0.5.0"
serde = { version = "=1.0.229", features = ["derive"] }
serde_json = "=1.0.154"
windows-sys = { version = "=0.61.2", features = ["Win32_Foundation", "Win32_Networking_WinInet", "Win32_Security", "Win32_System_Registry", "Win32_System_Threading"] }
