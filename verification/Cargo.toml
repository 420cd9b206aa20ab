[package]
name = "ash_gen"
version = "0.1.0"
edition = "2021"
publish = false

[dependencies]
heck = "=0.5.0"
syn = "=2.0.119"
proc-macro2 = "=1.0.107"
quote = "=1.0.47"
indexmap = "=2.14.2"
itertools = "=0.15.0"
unicode-ident = "=1.0.27"
