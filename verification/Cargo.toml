[package]
name = "process_cpu_auto"
version = "0.1.0"
edition = "2021"
publish = false

[dependencies]
regex = "=1.13.1"
wildmatch = "=2.7.0"
serde = { version = "=1.0.229", features = ["derive"] }
toml = "=0.8.23"
thiserror = "=1.0.69"
log = "=0.4.34"
env_logger = "=0.10.2"
fern = "=0.6.2"
chrono = "=0.4.45"
notify = "=6.1.1"
windows = { version = "=0.48.0", features = ["Win32_Foundation", "Win32_Security", "Win32_System_Threading", "Win32_System_SystemInformation", "Win32_System_Diagnostics_Debug", "Win32_System_Diagnostics_ToolHelp"] }
windows-service = "=0.6.0"
