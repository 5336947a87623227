[package]
name = "jvm-getter"
version = "0.1.0"
edition = "2021"
publish = false

[dependencies]
libc = "0.2"
jni-sys = "0.3"
windows-sys = { version = "*", features = ["Win32_Foundation", "Win32_System_LibraryLoader"] }
