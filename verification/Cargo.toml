[package]
name = "resp_decode"
version = "0.1.0"
edition = "2021"
publish = false

[dependencies]
thiserror = "1"
twoway = "0.2"
