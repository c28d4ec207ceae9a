[package]
name = "worker_launch"
version = "0.1.0"
edition = "2021"
publish = false

[dependencies]
windows = { version = "0.48", features = ["Win32_Foundation", "Win32_Security", "Win32_System_Memory", "Win32_System_Threading"] }
