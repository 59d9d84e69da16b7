[package]
name = "pl_0"
version = "0.1.0"
edition = "2021"
publish = false

[dependencies]
once_cell = "*"
pest = "*"
pest_derive = "*"
project-root = "*"
