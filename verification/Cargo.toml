[package]
name = "meiqiu-dict"
version = "0.1.0"
edition = "2021"
publish = false

[dependencies]
rusqlite = "*"
r2d2 = "*"
r2d2_sqlite = "*"
serde = { version = "1", features = ["derive"] }
serde_json = "1"
log = "0.4"
parking_lot = "*"
arboard = { version = "3", default-features = false }
windows = { version = "0.58", features = ["Win32_Foundation", "Win32_Media_Speech", "Win32_System_Com", "Win32_UI_Accessibility", "Win32_UI_Input_KeyboardAndMouse"] }
