[package]
name = "mdb_api"
version = "0.1.0"
edition = "2021"
publish = false

[dependencies]
bitflags = "2"
heck = "0.5"
proc-macro2 = "1"
quote = "1"
syn = "2"
