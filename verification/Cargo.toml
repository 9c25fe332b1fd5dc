[package]
name = "sokoterm"
version = "0.1.0"
edition = "2021"
publish = false

[dependencies]
console-lib = "*"
rand = "=0.9.5"
rand_chacha = "=0.9.0"
rodio = "=0.20.1"
