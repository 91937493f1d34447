[package]
name = "nel"
version = "0.1.0"
edition = "2021"
publish = false

[dependencies]
rand = "0.8"
url = "2"
deadqueue = "0.2"
futures = "0.3"
hyper = "0.14"
rustls = "0.21"
