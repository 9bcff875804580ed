[package]
name = "wikidot_normalize"
version = "0.1.0"
edition = "2021"
publish = false

[dependencies]
lazy_static = "1"
percent-encoding = "2"
regex = "1"
trim-in-place = "0.1"
unicode-normalization = "0.1"
