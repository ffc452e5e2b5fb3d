[package]
name = "name_formatter"
version = "0.1.0"
edition = "2021"
publish = false

[dependencies]
cli-clipboard = "0.4"
