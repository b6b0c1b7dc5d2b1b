[package]
name = "file_agent"
version = "0.1.0"
edition = "2021"
publish = false

[dependencies]
sysinfo = { version = "0.25", default-features = false }
