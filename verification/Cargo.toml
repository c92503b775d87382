[package]
name = "hidemaru"
version = "0.1.0"
edition = "2021"
publish = false

[dependencies]
ropey = "1"
regex = "1"
encoding_rs = "0.8"
native-windows-gui = "1"
native-windows-derive = "1"
winapi = { version = "0.3", features = ["winuser", "commctrl"] }
