[package]
name = "emulator"
version = "0.1.0"
edition = "2021"
publish = false

[dependencies]
regex = "1"
cmdline-parser = "*"
clap = "2"
rustyline = "14"
chrono = "0.4"
