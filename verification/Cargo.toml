[package]
name = "plrs_xilinx"
version = "0.1.0"
edition = "2021"
publish = false

[dependencies]
clap = "4"
env_logger = "*"
log = "*"
