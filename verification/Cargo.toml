[package]
name = "memory_stats"
version = "1.0.0"
edition = "2021"
publish = false

[dependencies]
libc = "0.2"
windows-sys = { version = "*", features = ["Win32_Foundation", "Win32_System_ProcessStatus", "Win32_System_Threading"] }
