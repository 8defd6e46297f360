[package]
name = "xoodyak_ext"
version = "0.1.0"
edition = "2021"
publish = false

[dependencies]
xoodyak = "*"
magnus = "0.7"
rb-sys = "0.9"
