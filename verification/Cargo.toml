[package]
name = "pretty_ping"
version = "0.1.0"
edition = "2021"
publish = false

[dependencies]
clap = "2"
colored = "2"
ctrlc = "3"
rand = "0.8"
socket2 = "0.5"
