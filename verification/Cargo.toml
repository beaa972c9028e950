[package]
name = "dynamixel"
version = "0.2.0"
edition = "2021"
publish = false

[dependencies]
serialport = { version = "4", default-features = false }
