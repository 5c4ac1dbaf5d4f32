[package]
name = "spin_sdk_router"
version = "0.1.0"
edition = "2021"
publish = false

[dependencies]
anyhow = "*"
bytes = "*"
http = "*"
routefinder = "*"
