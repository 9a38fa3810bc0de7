[package]
name = "oxideav-s3m"
version = "0.0.8"
edition = "2021"
publish = false

[dependencies]
oxideav-core = "*"
oxideav-codec = "*"
