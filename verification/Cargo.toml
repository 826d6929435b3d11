[package]
name = "auth_service"
version = "0.1.0"
edition = "2021"
publish = false

[dependencies]
pbkdf2 = "0.3"
base64 = "0.13"
rand = "0.8"
chrono = "0.4"
