[package]
name = "node_caches"
version = "0.1.0"
edition = "2021"
publish = false

[dependencies]
crossbeam = "*"
