[package]
name = "sob"
version = "0.1.0"
edition = "2021"
publish = false

[dependencies]
vob = "=2.0.6"
