[package]
name = "letter_shop"
version = "0.1.0"
edition = "2021"
publish = false

[dependencies]
text_io = "*"
