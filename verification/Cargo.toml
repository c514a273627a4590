[package]
name = "midi_keys"
version = "0.1.0"
edition = "2021"
publish = false

[dependencies]
midly = "0.5"
clap = "*"
x11 = "*"
autopilot = "*"
