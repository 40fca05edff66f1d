[package]
name = "nanvix_net"
version = "0.1.0"
edition = "2021"
publish = false

[dependencies]
smoltcp = "0.12"
volatile = "0.2"
