[package]
name = "raster3d"
version = "0.1.0"
edition = "2021"
publish = false

[dependencies]
display-interface = "0.4"
embedded-hal = "0.2"
libm = "0.2"
