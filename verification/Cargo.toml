[package]
name = "rcore"
version = "0.1.0"
edition = "2021"

[dependencies]
elf = "0.7"
glob = "0.3"
