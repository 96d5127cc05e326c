[package]
name = "plane_tracker"
version = "0.1.0"
edition = "2021"
publish = false

[dependencies]
cgmath = "=0.18.0"
chrono = "=0.4.45"
uom = "=0.36.0"
