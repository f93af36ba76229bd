[package]
name = "emugator"
version = "0.1.0"
edition = "2021"
publish = false

[dependencies]
bimap = "0.6"
