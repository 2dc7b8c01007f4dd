[package]
name = "paint_grid"
version = "0.1.0"
edition = "2021"
publish = false

[dependencies]
nannou = "0.15"
rand = "0.7"
