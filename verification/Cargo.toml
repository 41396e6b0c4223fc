[package]
name = "doit"
version = "0.1.0"
edition = "2021"
publish = false

[dependencies]
dirs = "5"
users = "0.11"
getopts = "0.2"
toml_edit = "0.19"

[dev-dependencies]
regex = "1"
