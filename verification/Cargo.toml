[package]
name = "fromsoft_bindings"
version = "0.1.0"
edition = "2021"
publish = false

[dependencies]
thiserror = "=2.0.21"
pelite = "=0.10.0"
dataview = "=1.1.0"
ilhook = "=2.3.0"
imgui = "=0.12.0"
windows = { version = "=0.58.0", features = ["Win32_System_LibraryLoader", "Win32_Foundation"] }
vtable-rs = "=0.1.5"
libhotpatch = "=1.2.0"
