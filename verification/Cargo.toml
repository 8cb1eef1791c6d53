[package]
name = "humat"
version = "0.2.0"
edition = "2021"
publish = false

[dependencies]
ryuu = "*"
