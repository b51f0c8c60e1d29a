[package]
name = "worldgen"
version = "0.1.0"
edition = "2021"
publish = false

[dependencies]
rand = "=0.3.23"
noise = "=0.2.0"
num = "=0.1.43"
