[package]
name = "hexcmyk"
version = "0.1.0"
edition = "2021"
publish = false

[dependencies]
arboard = { version = "3", default-features = false }
crossterm = "0.29"
lcms2 = "6"
ratatui = "0.30"
