[package]
name = "vtable_bench"
version = "0.1.0"
edition = "2021"
publish = false

[dependencies]
getopts = "0.2"
rand = "0.8"
statistical = "1.0"
