[package]
name = "osu_formats"
version = "0.1.0"
edition = "2021"
publish = false

[dependencies]
lzma-rs = "*"
md5 = "*"
num = "*"
bitflags = "1"
