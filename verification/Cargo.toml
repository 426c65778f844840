[package]
name = "vst3_host"
version = "0.1.0"
edition = "2021"
publish = false

[dependencies]
walkdir = "2.5.0"
libloading = "0.8"
log = "0.4"
cpal = "0.15"
