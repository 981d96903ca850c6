[package]
name = "kn"
version = "0.1.0"
edition = "2021"
publish = false

[dependencies]
strsim = "*"
ansi_term = "*"
pico-args = "*"
thiserror = "*"
