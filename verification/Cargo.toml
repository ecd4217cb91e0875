[package]
name = "rayblaster"
version = "0.1.0"
edition = "2021"
publish = false

[dependencies]
anyhow = "*"
argparse = "*"
cgmath = "*"
crossbeam = "*"
image = "*"
num_cpus = "*"
