[package]
name = "linebench"
version = "0.1.0"
edition = "2021"
publish = false

[dependencies]
crossbeam-channel = "*"
num_cpus = "*"
