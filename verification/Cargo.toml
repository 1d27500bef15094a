[package]
name = "screen_capture_diagnostic"
version = "0.1.0"
edition = "2021"
publish = false

[dependencies]
anyhow = "=1.0.104"
chrono = { version = "=0.4.45", features = ["serde"] }
dirs-next = "=2.0.0"
image = { version = "=0.25.10", default-features = false, features = ["png"] }
ndarray = "=0.16.1"
os_info = "=3.15.0"
reqwest = "=0.12.28"
serde = { version = "=1.0.229", features = ["derive"] }
serde_json = "=1.0.154"
sha2 = "=0.10.9"
xcap = "=0.9.8"
ort = { version = "=2.0.0-rc.10", default-features = false, features = ["std", "ndarray", "load-dynamic"] }
