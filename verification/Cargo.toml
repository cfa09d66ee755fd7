[package]
name = "mingling"
version = "0.1.0"
edition = "2021"
publish = false

[dependencies]
just_fmt = "*"
sha2 = "*"
colored = "*"
toml_edit = "*"
dirs = "*"
just_template = "*"
semver = "*"
