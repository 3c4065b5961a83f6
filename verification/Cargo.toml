[package]
name = "scroll_derive"
version = "0.1.0"
edition = "2021"
publish = false

[dependencies]
scroll = "0.7"
syn = "0.11"
quote = "0.3"
