[package]
name = "kaleidoscope"
version = "0.1.0"
edition = "2021"
publish = false

[dependencies]
chrono = "0.4"
mlua = { version = "0.10", features = ["lua54", "vendored"] }
noise = "0.9"
