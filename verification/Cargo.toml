[package]
name = "oxicord_ui"
version = "0.1.0"
edition = "2021"
publish = false

[dependencies]
ratatui = "=0.30.2"
crossterm = "=0.29.0"
unicode-width = "=0.2.3"
regex = "=1.13.1"
chrono = "=0.4.45"
coolor = "=1.1.0"
tui-textarea = "*"
