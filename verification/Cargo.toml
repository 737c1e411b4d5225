[package]
name = "dprio"
version = "0.1.0"
edition = "2021"
publish = false

[dependencies]
byteorder = "1"
libm = "0.2"
rand = "0.8"
sha2 = "0.10"
