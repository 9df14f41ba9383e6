[package]
name = "inno"
version = "0.4.0"
edition = "2021"
publish = false

[dependencies]
encoding_rs = "0.8"
flate2 = "1"
itertools = "0.14"
lzma-rust2 = "*"
zerocopy = "0.8"
