[package]
name = "yato-ae-gradient"
version = "0.1.0"
edition = "2021"
publish = false

[dependencies]
after-effects = "=0.2.1"
