[package]
name = "rp_can2040"
version = "0.1.0"
edition = "2021"
publish = false

[dependencies]
embedded-can = "0.4"
nb = "1"
defmt = "*"
