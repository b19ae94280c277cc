[package]
name = "font_tables"
version = "0.1.0"
edition = "2021"
publish = false

[dependencies]
byteorder = "=1.5.0"
euclid = "=0.22.14"
