[package]
name = "xsk_core"
version = "0.1.0"
edition = "2021"
publish = false

[dependencies]
libbpf-sys = "0.8"
libc = "=0.2.191"
log = "=0.4.34"
