[package]
name = "flywheel"
version = "0.1.0"
edition = "2021"
publish = false

[dependencies]
unicode-width = "*"
unicode-segmentation = "*"
crossterm = "*"
crossbeam-channel = "*"
vt100 = "*"
