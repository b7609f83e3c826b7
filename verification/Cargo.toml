[package]
name = "hue_cycler"
version = "0.1.0"
edition = "2021"
publish = false

[dependencies]
anyhow = "1"
color_processing = "*"
palette = "*"
