[package]
name = "stress-tester"
version = "0.1.0"
edition = "2021"
publish = false

[dependencies]
anyhow = "1"
clap = { version = "4", features = ["derive"] }
colored = "3"
ctrlc = "3"
dirs = "6"
indicatif = "0.18"
libc = "0.2"
sha2 = "0.10"
similar = "2"
which = "8"
windows-sys = { version = "0.59", features = ["Win32_Foundation", "Win32_Security", "Win32_Storage_FileSystem", "Win32_System_JobObjects", "Win32_System_Threading"] }
