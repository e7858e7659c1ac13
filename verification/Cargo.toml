[package]
name = "permafrost"
version = "0.1.0"
edition = "2021"
publish = false

[dependencies]
ruint = "=1.21.1"
