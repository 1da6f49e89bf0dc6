[package]
name = "inc_version"
version = "1.0.0"
edition = "2021"
publish = false

[dependencies]
clap = "4"
path-absolutize = "3"
