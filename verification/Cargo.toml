[package]
name = "erm"
version = "0.1.0"
edition = "2021"
publish = false

[dependencies]
codespan-reporting = "0.11"
im = "15"
clap = "2"
env_logger = "0.9"
logos = "0.12"
