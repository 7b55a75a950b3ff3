[package]
name = "termslides"
version = "0.1.0"
edition = "2021"
publish = false

[dependencies]
serde_yaml = "=0.9.34"
unicode-width = "=0.1.11"
crossterm = "=0.29.0"
