[package]
name = "roms_curator"
version = "0.1.0"
edition = "2021"
publish = false

[dependencies]
chrono = "*"
clap = "*"
indicatif = "*"
log = "*"
log4rs = "*"
roxmltree = "*"
