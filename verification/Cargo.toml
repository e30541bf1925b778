[package]
name = "pinentry-cadenza"
version = "0.1.0"
edition = "2021"
publish = false

[dependencies]
anyhow = "1"
clap = { version = "4", features = ["derive"] }
gtk4 = "*"
gtk4-layer-shell = "*"
relm4 = "*"
secrecy = "0.10"
iced = { version = "0.13", default-features = false }
