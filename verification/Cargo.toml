[package]
name = "rlua-builders"
version = "0.1.0"
edition = "2021"
publish = false

[dependencies]
proc-macro2 = "1"
quote = "1"
rlua = "0.19"
syn = "1"
