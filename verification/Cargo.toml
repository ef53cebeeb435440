[package]
name = "restro_keyboard"
version = "0.1.0"
edition = "2021"
publish = false

[dependencies]
windows = { version = "0.52", features = ["Win32_Foundation", "Win32_UI_Input_KeyboardAndMouse", "Win32_UI_WindowsAndMessaging"] }
