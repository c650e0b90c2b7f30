[package]
name = "rusty_chess"
version = "0.1.0"
edition = "2021"
publish = false

[dependencies]
clap = "2.34"
crossterm = "0.25"
tui = "0.19"
unicode-width = "0.1"
