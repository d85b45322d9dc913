[package]
name = "vmc"
version = "0.1.0"
edition = "2021"
publish = false

[dependencies]
argparse = "0.2"
