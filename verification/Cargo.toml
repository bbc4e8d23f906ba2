[package]
name = "rswatch"
version = "0.1.0"
edition = "2021"
publish = false

[dependencies]
libcli = "*"
ctrlc = "3"
