[package]
name = "disk_topology"
version = "0.1.0"
edition = "2021"
publish = false

[dependencies]
widestring = "1"
winapi = { version = "0.3", features = ["errhandlingapi", "fileapi", "handleapi", "ioapiset", "winioctl", "winnt"] }
eframe = { version = "0.22", default-features = false, features = ["default_fonts", "glow"] }
