[package]
name = "style_batch"
version = "0.1.0"
edition = "2021"
publish = false

[dependencies]
glob = "0.3"
clap = "2"
texture-synthesis = "0.8"
