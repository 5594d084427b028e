[package]
name = "orbsat"
version = "0.1.0"
edition = "2021"
publish = false

[dependencies]
dirs = "*"
fundsp = "*"
log = "*"
log-panics = "*"
num-derive = "*"
num-traits = "*"
simplelog = "*"
vst = "*"
wmidi = "*"
