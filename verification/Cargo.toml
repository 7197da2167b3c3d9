[package]
name = "dirwatch"
version = "0.1.0"
edition = "2021"
publish = false

[dependencies]
multiqueue = "=0.3.2"
winapi = "=0.2.8"
kernel32-sys = "=0.2.2"
