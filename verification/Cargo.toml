[package]
name = "iced_tui"
version = "0.1.0"
edition = "2021"
publish = false

[dependencies]
crossterm = "0.20"
iced_core = "0.4"
iced_futures = "0.3"
iced_native = "0.4"
log = "0.4"
