[package]
name = "vzctl"
version = "0.1.0"
edition = "2021"
publish = false

[dependencies]
crossterm = "=0.28.1"
ctrlc = "3"
libc = "=0.2.191"
serde_json = "=1.0.154"
serde_yaml = "=0.9.34"
sha2 = "=0.10.9"
