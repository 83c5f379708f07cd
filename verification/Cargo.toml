[package]
name = "rule_defs"
version = "0.1.0"
edition = "2021"
publish = false

[dependencies]
anyhow = "*"
fancy-regex = "*"
starlark = "*"
thiserror = "*"
tracing = "*"
