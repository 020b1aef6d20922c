[package]
name = "module_register"
version = "0.1.0"
edition = "2021"
publish = false

[dependencies]
ctor = "0.2"
once_cell = "1"
