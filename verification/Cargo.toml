[package]
name = "embassy"
version = "0.1.0"
edition = "2021"
publish = false

[dependencies]
smoltcp = { version = "=0.9.1", default-features = false, features = ["std", "async", "medium-ethernet", "medium-ip", "proto-ipv4", "proto-ipv6", "socket-tcp", "socket-udp"] }
heapless = "=0.6.1"
syn = { version = "=3.0.9", features = ["full"] }
proc-macro2 = "=1.0.107"
darling = "0.24"
futures = "=0.3.34"
log = "=0.4.35"
env_logger = "=0.9.3"
embedded-hal = "=0.2.7"
embedded-io = "=0.6.1"
embedded-io-async = "=0.6.1"
embedded-nal-async = "=0.7.1"
