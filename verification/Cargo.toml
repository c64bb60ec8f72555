[package]
name = "ezcript"
version = "1.0.0"
edition = "2021"
publish = false

[dependencies]
ansi_term = "0.12"
clap = "2"
