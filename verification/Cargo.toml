[package]
name = "hackchat"
version = "0.1.0"
edition = "2021"
publish = false

[dependencies]
simple_crypt = "*"
anyhow = "*"
ratatui = "0.29"
color-eyre = "*"
