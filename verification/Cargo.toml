[package]
name = "sfconversions"
version = "0.1.0"
edition = "2021"

[dependencies]
geo-types = "0.7"
savvy = "*"
