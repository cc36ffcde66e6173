[package]
name = "cellular_automata"
version = "0.1.0"
edition = "2021"
publish = false

[dependencies]
array2d = "0.3"
rand = "0.10"
anyhow = "1"
pollster = "0.4"
vello = "*"
winit = "0.30"
