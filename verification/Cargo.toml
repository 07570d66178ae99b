[package]
name = "loupe"
version = "0.1.0"
edition = "2021"
publish = false

[dependencies]
iced_core = "=0.14.0"
iced = { version = "=0.14.0", default-features = false, features = ["advanced", "x11", "thread-pool", "tiny-skia"] }
