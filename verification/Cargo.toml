[package]
name = "tabs_bridge"
version = "0.1.0"
edition = "2021"
publish = false

[dependencies]
rand = "0.8"
parking_lot = "*"
once_cell = "*"
thin-vec = "*"
