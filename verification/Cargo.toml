[package]
name = "goto_picker"
version = "0.1.0"
edition = "2021"
publish = false

[dependencies]
nucleo-matcher = "0.3"
crossterm = "0.28"
ratatui = "0.29"
