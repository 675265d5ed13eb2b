[package]
name = "symrs"
version = "0.1.0"
edition = "2021"
publish = false

[dependencies]
num = "*"
symtern = "*"
itertools = "*"
lazy_static = "*"

[dev-dependencies]
float-cmp = "*"
