[package]
name = "rusty-forest"
version = "0.1.1"
edition = "2021"
publish = false

[dependencies]
chrono = "0.4"
getopts = "0.2"
hex = "0.4"
itertools = "0.10"
rand = "0.8"
regex = "1"
termion = "1.5"
