[package]
name = "pgerd"
version = "0.1.0"
edition = "2021"
publish = false

[dependencies]
iced = { version = "=0.14.0", default-features = false, features = ["canvas", "advanced", "tiny-skia", "x11", "thread-pool"] }
postgres = "=0.19.14"
