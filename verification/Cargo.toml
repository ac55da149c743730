[package]
name = "vvsml"
version = "0.1.0"
edition = "2021"
publish = false

[dependencies]
regex = "=1.13.1"
ipa-translate = "=0.2.0"
colored = "=2.2.0"
