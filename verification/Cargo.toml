[package]
name = "termrender"
version = "0.1.0"
edition = "2021"
publish = false

[dependencies]
cgmath = "*"
crossterm = "*"
tobj = "*"
vulkano = "0.19"
vulkano-shaders = "0.19"
