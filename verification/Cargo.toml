[package]
name = "yamlcore"
version = "0.1.0"
edition = "2021"
publish = false

[dependencies]
regex = "*"
chrono = "*"
base64 = "*"
encoding_rs = "*"
