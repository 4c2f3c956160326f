[package]
name = "input_capture"
version = "0.1.0"
edition = "2021"
publish = false

[dependencies]
hidreport = "=0.6.0"
hut = "=0.6.0"
hidapi = "=2.6.7"
rusty-xinput = "=1.3.0"
serde = { version = "=1.0.229", features = ["derive"] }
tauri = { version = "=2.12.5", default-features = false }
windows = { version = "=0.62.2", features = ["Win32_UI_Input_KeyboardAndMouse"] }
