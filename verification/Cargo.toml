[package]
name = "modem_sockets"
version = "0.1.0"
edition = "2021"
publish = false

[dependencies]
no-std-net = "*"
embedded-nal = "*"
embassy-time = "*"
