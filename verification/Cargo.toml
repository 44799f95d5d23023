[package]
name = "rsfbclient"
version = "0.1.0"
edition = "2021"
publish = false

[dependencies]
bytes = "0.5"
thiserror = "1.0"
