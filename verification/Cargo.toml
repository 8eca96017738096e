[package]
name = "autosplitter"
version = "0.1.0"
edition = "2021"
publish = false

[dependencies]
log = "*"
simplelog = "*"
native-dialog = "*"
