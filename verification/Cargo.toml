[package]
name = "bulk_rename"
version = "0.1.0"
edition = "2021"
publish = false

[dependencies]
crossbeam = "*"
ignore = "*"
parking_lot = "*"
rayon = "*"
tempfile = "*"
