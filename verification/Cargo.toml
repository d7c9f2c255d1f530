[package]
name = "flaggrid"
version = "0.1.0"
edition = "2021"
publish = false

[dependencies]
image = { version = "*", default-features = false, features = ["png"] }
palette = "*"
arboard = "*"
chrono = "*"
winreg = "*"
eframe = { version = "*", default-features = false }
