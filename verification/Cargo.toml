[package]
name = "sim7000"
version = "0.1.0"
edition = "2021"
publish = false

[dependencies]
heapless = "0.8"
embedded-io-async = "0.6"
