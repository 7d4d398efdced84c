[package]
name = "w1_netlink"
version = "0.1.0"
edition = "2021"
publish = false

[dependencies]
netlink-packet-core = "*"
netlink-sys = "*"
