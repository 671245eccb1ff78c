[package]
name = "cfgloader"
version = "0.1.0"
edition = "2021"
publish = false

[dependencies]
dotenvy = "0.15"
proc-macro2 = "1"
quote = "1"
syn = "2"
