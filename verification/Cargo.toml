[package]
name = "rurity"
version = "0.1.0"
edition = "2021"
publish = false

[dependencies]
lz4 = "=1.28.1"
erupt = "=0.23.0+213"
raw-window-handle = "0.5"
winit = "0.28"
tracing = "0.1"
tracing-appender = "0.2"
tracing-subscriber = { version = "0.3", features = ["env-filter", "time", "local-time"] }
time = { version = "0.3", features = ["macros", "local-offset"] }
