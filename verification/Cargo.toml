[package]
name = "plumber"
version = "0.1.0"
edition = "2021"

[dependencies]
shlex = "*"
log = "*"
