[package]
name = "riff_daw_core"
version = "0.1.0"
edition = "2021"
publish = false

[dependencies]
uuid = { version = "1", features = ["v4"] }
base64 = "0.21"
apres = "*"
dawproject = "*"
clap-sys = "*"
libloading = "*"
