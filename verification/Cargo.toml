[package]
name = "ureq_transport"
version = "0.1.0"
edition = "2021"
publish = false

[dependencies]
log = "0.4"
socket2 = "*"
socks = "0.3"
