[package]
name = "battrs"
version = "0.1.0"
edition = "2021"
publish = false

[dependencies]
battery = "*"
daemonize = "*"
notify-rust = "*"
