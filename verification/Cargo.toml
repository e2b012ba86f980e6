[package]
name = "wecom_launcher"
version = "0.1.0"
edition = "2021"
publish = false

[dependencies]
rand = "=0.8.8"
serde = { version = "=1.0.229", features = ["derive"] }
serde_json = "=1.0.154"
sysinfo = "=0.33.1"
tokio = { version = "=1.54.1", features = ["time", "rt"] }
dirs = "=5.0.1"
windows = { version = "=0.57.0", features = ["Win32_Foundation", "Win32_Security", "Win32_System_Threading"] }
winreg = "0.52"
