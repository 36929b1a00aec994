[package]
name = "run0-pkexec-shim"
version = "0.1.0"
edition = "2021"
publish = false

[dependencies]
uzers = "*"
