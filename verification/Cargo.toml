[package]
name = "feather"
version = "0.1.0"
edition = "2021"
publish = false

[dependencies]
ascii = "1"
dyn-clone = "1"
threadpool = "1"
tiny_http = "0.12"
