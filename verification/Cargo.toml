[package]
name = "megaui_bridge"
version = "0.1.0"
edition = "2021"
publish = false

[dependencies]
megaui = "=0.2.18"
