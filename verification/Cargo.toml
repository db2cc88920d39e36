[package]
name = "argc"
version = "0.1.0"
edition = "2021"
publish = false

[dependencies]
either = "1"
indexmap = "2"
