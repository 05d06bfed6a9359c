[package]
name = "iqdb-index"
version = "1.0.0"
edition = "2021"
publish = false

[dependencies]
iqdb-types = "*"
