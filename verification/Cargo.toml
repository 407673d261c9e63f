[package]
name = "pixel_expander"
version = "0.1.0"
edition = "2021"
publish = false

[dependencies]
argparse = "0.2"
raster = "0.2"
