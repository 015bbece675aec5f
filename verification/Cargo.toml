[package]
name = "i18nx"
version = "0.1.0"
edition = "2021"
publish = false

[dependencies]
formatx = "*"
once_cell = "*"
ron = "*"
