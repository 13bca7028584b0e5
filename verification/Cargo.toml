[package]
name = "dvd_term"
version = "0.1.0"
edition = "2021"
publish = false

[dependencies]
clap = "=4.6.7"
crossterm = "=0.29.0"
figlet-rs = "=0.1.5"
rand = "=0.10.3"
