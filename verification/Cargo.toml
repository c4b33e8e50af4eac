[package]
name = "winmon"
version = "0.1.0"
edition = "2021"
publish = false

[dependencies]
anyhow = "=1.0.104"
rayon = "=1.12.0"
serde = { version = "=1.0.229", features = ["derive"] }
serde_json = "=1.0.154"
thiserror = "=1.0.69"
tokio = { version = "=1.54.1", features = ["full"] }
tracing = "=0.1.44"
tracing-subscriber = { version = "=0.3.23", features = ["env-filter"] }
clap = { version = "=4.6.7", features = ["derive"] }
libc = "=0.2.191"
diplomat = "=0.17.0"
diplomat-runtime = "=0.16.1"
uniffi = "=0.32.2"
windows = { version = "0.58", features = ["implement", "Win32_Foundation", "Win32_Security", "Win32_System_Com", "Win32_System_Diagnostics_ToolHelp", "Win32_System_EventLog", "Win32_System_Registry", "Win32_System_SystemInformation", "Win32_UI_Shell"] }
windows-service = "*"
