[package]
name = "xtrans"
version = "0.1.0"
edition = "2021"
publish = false

[dependencies]
arboard = "3"
clap = { version = "4", features = ["derive"] }
image = { version = "0.25", default-features = false, features = ["png"] }
libc = "0.2"
windows-sys = { version = "0.59", features = ["Win32_Foundation", "Win32_System_Console"] }
