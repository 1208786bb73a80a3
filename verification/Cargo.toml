[package]
name = "near_sdk"
version = "0.1.0"
edition = "2021"
publish = false

[dependencies]
borsh = "0.9"
schemars = "0.8"
