[package]
name = "pc2frames"
version = "0.1.0"
edition = "2021"
publish = false

[dependencies]
anyhow = "*"
gimli = "*"
intervaltree = "*"
object = "*"
rustc-demangle = "*"
