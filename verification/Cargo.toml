[package]
name = "autocorrect"
version = "0.1.0"
edition = "2021"
publish = false

[dependencies]
clap = "2.33"
ignore = "0.4"
log = "0.4"
