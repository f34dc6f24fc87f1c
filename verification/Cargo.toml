[package]
name = "rune_boot"
version = "0.1.0"
edition = "2021"
publish = false

[dependencies]
mbr = "=0.2.2"
getopts = "=0.2.24"
positioned-io = "*"

[dev-dependencies]
tempfile = "*"
