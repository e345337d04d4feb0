[package]
name = "include_lua"
version = "0.1.0"
edition = "2021"
publish = false

[dependencies]
rlua = "0.19"
walkdir = "2"
syn = "1"
quote = "1"
