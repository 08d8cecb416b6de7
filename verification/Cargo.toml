[package]
name = "spv_filter"
version = "0.1.0"
edition = "2021"
publish = false

[dependencies]
murmur3 = "0.5"
rand = "0.8"
hex = "0.4"
argh = "0.1"
crossbeam-channel = "0.5"
log = "0.4"
