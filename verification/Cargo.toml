[package]
name = "drawapp"
version = "0.1.0"
edition = "2021"
publish = false

[dependencies]
whisker = "=0.3.1"
whisker-config = "=0.3.1"
whisker-svg = "=0.3.1"
