[package]
name = "typoo"
version = "0.1.0"
edition = "2021"
publish = false

[dependencies]
crossterm = "0.27"
rand = "0.8"
