[package]
name = "crossdb"
version = "0.1.0"
edition = "2021"
publish = false

[dependencies]
lru = "*"
cidr = "*"
mac_address = "*"
serde = "*"
thiserror = "*"
