[package]
name = "mount_arelle"
version = "0.1.0"
edition = "2021"
publish = false

[dependencies]
rand = "=0.4.6"
lazy_static = "=1.5.1"
picto = "=0.4.4"
ggez = "0.5"
