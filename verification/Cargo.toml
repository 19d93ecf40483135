[package]
name = "llc_snap"
version = "0.1.0"
edition = "2021"
publish = false

[dependencies]
ether-type = "*"
scroll = "*"
