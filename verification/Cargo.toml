[package]
name = "soldank"
version = "0.1.0"
edition = "2021"
publish = false

[dependencies]
bytes = "1"
nanoserde = "0.1"
hecs = "0.7"
