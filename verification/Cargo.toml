[package]
name = "classfile_parser"
version = "0.1.0"
edition = "2021"
publish = false

[dependencies]
bitflags = "2"
cesu8 = "1"

[dev-dependencies]
nom = "7"
