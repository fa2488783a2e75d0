[package]
name = "blipbuff"
version = "0.1.0"
edition = "2021"
publish = false

[dependencies]
clap = "2"
hound = "3"
text_io = "0.1"
unwrap = "1"
