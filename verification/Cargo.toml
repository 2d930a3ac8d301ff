[package]
name = "rustychess"
version = "0.1.0"
edition = "2021"
publish = false

[dependencies]
ansi_term = "0.12"
crossterm = "0.28"
log = "0.4"
ratatui = "0.29"
simplelog = "0.12"
