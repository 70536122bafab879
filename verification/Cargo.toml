[package]
name = "psswrdmngr"
version = "0.1.0"
edition = "2021"
publish = false

[dependencies]
clap = "2"
dirs = "*"
fernet = "*"
serde_json = "1"
