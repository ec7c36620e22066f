[package]
name = "bloop"
version = "0.1.0"
edition = "2021"

[dependencies]
cpal = "0.8"
